//! Stored data model: conversations, messages and their contents.
//!
//! A message's identity for de-duplication is its *signal id*, the pair
//! `(sender_uuid, timestamp)`; the locally generated `id` only names the row.
//! Every type has a ghost view (`@`) over which all contracts are stated.

use vstd::prelude::*;

verus! {

#[derive(Debug, Clone, Copy, PartialEq, Eq, Structural)]
pub enum ConversationType {
    Direct,
    Group,
}

#[derive(Debug, Clone)]
pub struct Conversation {
    pub id: String,
    pub conversation_type: ConversationType,
    pub recipient_uuid: Option<String>,
    pub recipient_number: Option<String>,
    pub recipient_name: Option<String>,
    pub group_id: Option<String>,
    pub group_name: Option<String>,
    pub last_message_timestamp: Option<i64>,
    pub unread_count: u32,
    pub is_archived: bool,
    pub is_muted: bool,
}

#[derive(Debug, Clone)]
pub enum MessageContent {
    Text { body: String },
    Attachment { attachments: Vec<AttachmentInfo> },
    Sticker { pack_id: String, sticker_id: i32 },
    RemoteDeleted,
}

#[derive(Debug, Clone)]
pub struct AttachmentInfo {
    pub id: Option<String>,
    pub content_type: Option<String>,
    pub filename: Option<String>,
    pub size: Option<u64>,
    pub local_path: Option<String>,
}

#[derive(Debug, Clone)]
pub struct Quote {
    pub author_uuid: String,
    pub timestamp: i64,
    pub text: Option<String>,
}

#[derive(Debug, Clone)]
pub struct Message {
    pub id: String,
    pub conversation_id: String,
    pub sender_uuid: String,
    pub sender_name: Option<String>,
    pub timestamp: i64,
    pub server_timestamp: Option<i64>,
    pub received_at: i64,
    pub content: MessageContent,
    pub quote: Option<Quote>,
    pub is_outgoing: bool,
    pub is_read: bool,
    pub is_deleted: bool,
    pub is_edited: bool,
}

#[derive(Debug, Clone)]
pub struct Reaction {
    pub id: String,
    pub message_id: String,
    pub sender_uuid: String,
    pub emoji: String,
    pub timestamp: i64,
}

#[derive(Debug, Clone, Copy, PartialEq, Eq, Structural)]
pub enum DeliveryState {
    Sending,
    Sent,
    Delivered,
    Read,
    Failed,
}

#[derive(Debug, Clone)]
pub struct DeliveryStatus {
    pub message_id: String,
    pub recipient_uuid: String,
    pub state: DeliveryState,
    pub updated_at: i64,
}

#[derive(Debug, Clone)]
pub struct GroupMember {
    pub group_id: String,
    pub member_uuid: String,
    pub member_name: Option<String>,
    pub role: Option<String>,
}

/// The view of an optional string.
pub open spec fn opt_view(o: Option<String>) -> Option<Seq<char>> {
    match o {
        Some(s) => Some(s@),
        None => None,
    }
}

#[verifier::ext_equal]
pub ghost struct AttachmentModel {
    pub id: Option<Seq<char>>,
    pub content_type: Option<Seq<char>>,
    pub filename: Option<Seq<char>>,
    pub size: Option<u64>,
    pub local_path: Option<Seq<char>>,
}

#[verifier::ext_equal]
pub ghost enum ContentModel {
    Text { body: Seq<char> },
    Attachment { attachments: Seq<AttachmentModel> },
    Sticker { pack_id: Seq<char>, sticker_id: i32 },
    RemoteDeleted,
}

#[verifier::ext_equal]
pub ghost struct QuoteModel {
    pub author_uuid: Seq<char>,
    pub timestamp: i64,
    pub text: Option<Seq<char>>,
}

#[verifier::ext_equal]
pub ghost struct MessageModel {
    pub id: Seq<char>,
    pub conversation_id: Seq<char>,
    pub sender_uuid: Seq<char>,
    pub sender_name: Option<Seq<char>>,
    pub timestamp: i64,
    pub server_timestamp: Option<i64>,
    pub received_at: i64,
    pub content: ContentModel,
    pub quote: Option<QuoteModel>,
    pub is_outgoing: bool,
    pub is_read: bool,
    pub is_deleted: bool,
    pub is_edited: bool,
}

#[verifier::ext_equal]
pub ghost struct ConversationModel {
    pub id: Seq<char>,
    pub conversation_type: ConversationType,
    pub recipient_uuid: Option<Seq<char>>,
    pub recipient_number: Option<Seq<char>>,
    pub recipient_name: Option<Seq<char>>,
    pub group_id: Option<Seq<char>>,
    pub group_name: Option<Seq<char>>,
    pub last_message_timestamp: Option<i64>,
    pub unread_count: u32,
    pub is_archived: bool,
    pub is_muted: bool,
}

impl View for AttachmentInfo {
    type V = AttachmentModel;

    open spec fn view(&self) -> AttachmentModel {
        AttachmentModel {
            id: opt_view(self.id),
            content_type: opt_view(self.content_type),
            filename: opt_view(self.filename),
            size: self.size,
            local_path: opt_view(self.local_path),
        }
    }
}

impl View for MessageContent {
    type V = ContentModel;

    open spec fn view(&self) -> ContentModel {
        match self {
            MessageContent::Text { body } => ContentModel::Text { body: body@ },
            MessageContent::Attachment { attachments } => ContentModel::Attachment {
                attachments: attachments@.map_values(|a: AttachmentInfo| a@),
            },
            MessageContent::Sticker { pack_id, sticker_id } => ContentModel::Sticker {
                pack_id: pack_id@,
                sticker_id: *sticker_id,
            },
            MessageContent::RemoteDeleted => ContentModel::RemoteDeleted,
        }
    }
}

impl View for Quote {
    type V = QuoteModel;

    open spec fn view(&self) -> QuoteModel {
        QuoteModel {
            author_uuid: self.author_uuid@,
            timestamp: self.timestamp,
            text: opt_view(self.text),
        }
    }
}

impl View for Message {
    type V = MessageModel;

    open spec fn view(&self) -> MessageModel {
        MessageModel {
            id: self.id@,
            conversation_id: self.conversation_id@,
            sender_uuid: self.sender_uuid@,
            sender_name: opt_view(self.sender_name),
            timestamp: self.timestamp,
            server_timestamp: self.server_timestamp,
            received_at: self.received_at,
            content: self.content@,
            quote: match self.quote {
                Some(q) => Some(q@),
                None => None,
            },
            is_outgoing: self.is_outgoing,
            is_read: self.is_read,
            is_deleted: self.is_deleted,
            is_edited: self.is_edited,
        }
    }
}

impl View for Conversation {
    type V = ConversationModel;

    open spec fn view(&self) -> ConversationModel {
        ConversationModel {
            id: self.id@,
            conversation_type: self.conversation_type,
            recipient_uuid: opt_view(self.recipient_uuid),
            recipient_number: opt_view(self.recipient_number),
            recipient_name: opt_view(self.recipient_name),
            group_id: opt_view(self.group_id),
            group_name: opt_view(self.group_name),
            last_message_timestamp: self.last_message_timestamp,
            unread_count: self.unread_count,
            is_archived: self.is_archived,
            is_muted: self.is_muted,
        }
    }
}

/// The name a conversation is listed under.
pub open spec fn conv_display_name(c: ConversationModel) -> Seq<char> {
    match c.conversation_type {
        ConversationType::Direct => match (c.recipient_name, c.recipient_number, c.recipient_uuid) {
            (Some(n), _, _) => n,
            (None, Some(n), _) => n,
            (None, None, Some(u)) => u,
            (None, None, None) => "Unknown"@,
        },
        ConversationType::Group => match c.group_name {
            Some(n) => n,
            None => "Unknown Group"@,
        },
    }
}

/// The identifier a conversation is addressed by.
pub open spec fn conv_identifier(c: ConversationModel) -> Seq<char> {
    match c.conversation_type {
        ConversationType::Direct => match (c.recipient_uuid, c.recipient_number) {
            (Some(u), _) => u,
            (None, Some(n)) => n,
            (None, None) => Seq::empty(),
        },
        ConversationType::Group => match c.group_id {
            Some(g) => g,
            None => Seq::empty(),
        },
    }
}

impl Conversation {
    /// A fresh direct conversation with the given peer; the local id is a
    /// fresh UUID.
    pub fn new_direct(
        recipient_uuid: String,
        recipient_number: Option<String>,
        recipient_name: Option<String>,
    ) -> (r: Conversation)
        ensures
            r.conversation_type == ConversationType::Direct,
            r@.recipient_uuid == Some(recipient_uuid@),
            r@.recipient_number == opt_view(recipient_number),
            r@.recipient_name == opt_view(recipient_name),
            r@.group_id is None,
            r@.group_name is None,
            r@.last_message_timestamp is None,
            r@.unread_count == 0,
            !r@.is_archived,
            !r@.is_muted,
    {
        Conversation {
            id: crate::sys::fresh_uuid(),
            conversation_type: ConversationType::Direct,
            recipient_uuid: Some(recipient_uuid),
            recipient_number,
            recipient_name,
            group_id: None,
            group_name: None,
            last_message_timestamp: None,
            unread_count: 0,
            is_archived: false,
            is_muted: false,
        }
    }

    /// A fresh group conversation; the local id is a fresh UUID.
    pub fn new_group(group_id: String, group_name: Option<String>) -> (r: Conversation)
        ensures
            r.conversation_type == ConversationType::Group,
            r@.group_id == Some(group_id@),
            r@.group_name == opt_view(group_name),
            r@.recipient_uuid is None,
            r@.recipient_number is None,
            r@.recipient_name is None,
            r@.last_message_timestamp is None,
            r@.unread_count == 0,
            !r@.is_archived,
            !r@.is_muted,
    {
        Conversation {
            id: crate::sys::fresh_uuid(),
            conversation_type: ConversationType::Group,
            recipient_uuid: None,
            recipient_number: None,
            recipient_name: None,
            group_id: Some(group_id),
            group_name,
            last_message_timestamp: None,
            unread_count: 0,
            is_archived: false,
            is_muted: false,
        }
    }

    /// The name this conversation is listed under.
    pub fn display_name(&self) -> (r: String)
        ensures
            r@ == conv_display_name(self@),
    {
        match self.conversation_type {
            ConversationType::Direct => match &self.recipient_name {
                Some(n) => n.clone(),
                None => match &self.recipient_number {
                    Some(n) => n.clone(),
                    None => match &self.recipient_uuid {
                        Some(u) => u.clone(),
                        None => "Unknown".to_owned(),
                    },
                },
            },
            ConversationType::Group => match &self.group_name {
                Some(n) => n.clone(),
                None => "Unknown Group".to_owned(),
            },
        }
    }

    /// The identifier this conversation is addressed by (empty when none is
    /// known).
    pub fn identifier(&self) -> (r: String)
        ensures
            r@ == conv_identifier(self@),
    {
        match self.conversation_type {
            ConversationType::Direct => match &self.recipient_uuid {
                Some(u) => u.clone(),
                None => match &self.recipient_number {
                    Some(n) => n.clone(),
                    None => String::new(),
                },
            },
            ConversationType::Group => match &self.group_id {
                Some(g) => g.clone(),
                None => String::new(),
            },
        }
    }
}

/// The views of a sequence of messages.
pub open spec fn msgs_view(s: Seq<Message>) -> Seq<MessageModel> {
    s.map_values(|m: Message| m@)
}

/// The views of a sequence of conversations.
pub open spec fn convs_view(s: Seq<Conversation>) -> Seq<ConversationModel> {
    s.map_values(|c: Conversation| c@)
}

/// Whether a message carries the given signal id (de-duplication key).
pub open spec fn has_signal_id(m: MessageModel, sender: Seq<char>, ts: i64) -> bool {
    m.sender_uuid == sender && m.timestamp == ts
}

/// How many messages of `s` carry the signal id `(sender, ts)`.
pub open spec fn count_signal_id(s: Seq<MessageModel>, sender: Seq<char>, ts: i64) -> nat
    decreases s.len(),
{
    if s.len() == 0 {
        0
    } else {
        count_signal_id(s.drop_last(), sender, ts) + if has_signal_id(s.last(), sender, ts) {
            1nat
        } else {
            0nat
        }
    }
}

/// Timestamps weakly increase along the sequence.
pub open spec fn ascending_by_timestamp(s: Seq<MessageModel>) -> bool {
    forall|i: int, j: int|
        0 <= i < j < s.len() ==> #[trigger] s[i].timestamp <= #[trigger] s[j].timestamp
}

/// Timestamps strictly increase along the sequence.
pub open spec fn strictly_ascending_by_timestamp(s: Seq<MessageModel>) -> bool {
    forall|i: int, j: int|
        0 <= i < j < s.len() ==> #[trigger] s[i].timestamp < #[trigger] s[j].timestamp
}

/// No two messages of `s` share a signal id.
pub open spec fn distinct_signal_ids(s: Seq<MessageModel>) -> bool {
    forall|i: int, j: int|
        0 <= i < j < s.len() ==> !(#[trigger] s[i].sender_uuid == #[trigger] s[j].sender_uuid
            && s[i].timestamp == s[j].timestamp)
}

/// Counting signal ids distributes over concatenation.
pub proof fn lemma_count_concat(a: Seq<MessageModel>, b: Seq<MessageModel>, sender: Seq<char>, ts: i64)
    ensures
        count_signal_id(a + b, sender, ts) == count_signal_id(a, sender, ts) + count_signal_id(
            b,
            sender,
            ts,
        ),
    decreases b.len(),
{
    if b.len() == 0 {
        assert(a + b =~= a);
    } else {
        assert((a + b).drop_last() =~= a + b.drop_last());
        assert((a + b).last() == b.last());
        lemma_count_concat(a, b.drop_last(), sender, ts);
    }
}

/// A sequence holds no message with a signal id exactly when its count is zero.
pub proof fn lemma_count_zero_iff_none(s: Seq<MessageModel>, sender: Seq<char>, ts: i64)
    ensures
        (count_signal_id(s, sender, ts) == 0) <==> (forall|i: int|
            0 <= i < s.len() ==> !has_signal_id(#[trigger] s[i], sender, ts)),
    decreases s.len(),
{
    if s.len() > 0 {
        lemma_count_zero_iff_none(s.drop_last(), sender, ts);
        assert(forall|i: int|
            0 <= i < s.len() - 1 ==> #[trigger] s[i] == s.drop_last()[i]);
    }
}

/// The views of a sequence with one message pushed at the end.
pub proof fn lemma_msgs_view_push(s: Seq<Message>, m: Message)
    ensures
        msgs_view(s.push(m)) =~= msgs_view(s).push(m@),
{
}

/// The views of a sequence with one message inserted.
pub proof fn lemma_msgs_view_insert(s: Seq<Message>, i: int, m: Message)
    requires
        0 <= i <= s.len(),
    ensures
        msgs_view(s.insert(i, m)) =~= msgs_view(s).insert(i, m@),
{
    s.insert_ensures(i, m);
    msgs_view(s).insert_ensures(i, m@);
}

/// The views of a sequence with one message removed.
pub proof fn lemma_msgs_view_remove(s: Seq<Message>, i: int)
    ensures
        0 <= i < s.len() ==> msgs_view(s.remove(i)) =~= msgs_view(s).remove(i),
{
    if 0 <= i < s.len() {
        s.remove_ensures(i);
        msgs_view(s).remove_ensures(i);
    }
}

/// The views of a concatenation of message sequences.
pub proof fn lemma_msgs_view_concat(a: Seq<Message>, b: Seq<Message>)
    ensures
        msgs_view(a + b) =~= msgs_view(a) + msgs_view(b),
{
}

/// The views of a subrange of a message sequence.
pub proof fn lemma_msgs_view_subrange(s: Seq<Message>, a: int, b: int)
    requires
        0 <= a <= b <= s.len(),
    ensures
        msgs_view(s.subrange(a, b)) =~= msgs_view(s).subrange(a, b),
{
}

/// The views of a sequence with one conversation pushed at the end.
pub proof fn lemma_convs_view_push(s: Seq<Conversation>, c: Conversation)
    ensures
        convs_view(s.push(c)) =~= convs_view(s).push(c@),
{
}

/// The views of a sequence with one conversation removed.
pub proof fn lemma_convs_view_remove(s: Seq<Conversation>, i: int)
    ensures
        0 <= i < s.len() ==> convs_view(s.remove(i)) =~= convs_view(s).remove(i),
{
    if 0 <= i < s.len() {
        s.remove_ensures(i);
        convs_view(s).remove_ensures(i);
    }
}

/// Counting after an insertion adds exactly the inserted message's match.
pub proof fn lemma_count_insert(
    s: Seq<MessageModel>,
    i: int,
    m: MessageModel,
    sender: Seq<char>,
    ts: i64,
)
    requires
        0 <= i <= s.len(),
    ensures
        count_signal_id(s.insert(i, m), sender, ts) == count_signal_id(s, sender, ts) + if has_signal_id(
            m,
            sender,
            ts,
        ) {
            1nat
        } else {
            0nat
        },
{
    let pre = s.subrange(0, i);
    let post = s.subrange(i, s.len() as int);
    assert(s.insert(i, m) == pre.push(m) + post);
    assert(pre.push(m) =~= pre + seq![m]);
    lemma_count_concat(pre + seq![m], post, sender, ts);
    lemma_count_concat(pre, seq![m], sender, ts);
    assert(count_signal_id(Seq::<MessageModel>::empty(), sender, ts) == 0);
    assert(seq![m].drop_last() =~= Seq::<MessageModel>::empty());
    assert(seq![m].last() == m);
    assert(count_signal_id(seq![m], sender, ts) == if has_signal_id(m, sender, ts) {
        1nat
    } else {
        0nat
    });
    lemma_count_concat(pre, post, sender, ts);
    assert(pre + post =~= s);
}

/// Counting after a removal subtracts exactly the removed message's match.
pub proof fn lemma_count_remove(s: Seq<MessageModel>, i: int, sender: Seq<char>, ts: i64)
    requires
        0 <= i < s.len(),
    ensures
        count_signal_id(s, sender, ts) == count_signal_id(s.remove(i), sender, ts) + if has_signal_id(
            s[i],
            sender,
            ts,
        ) {
            1nat
        } else {
            0nat
        },
{
    let pre = s.subrange(0, i);
    let mid = seq![s[i]];
    let post = s.subrange(i + 1, s.len() as int);
    assert(s.remove(i) == pre + post);
    assert(s =~= (pre + mid) + post);
    lemma_count_concat(pre + mid, post, sender, ts);
    lemma_count_concat(pre, mid, sender, ts);
    assert(count_signal_id(Seq::<MessageModel>::empty(), sender, ts) == 0);
    assert(mid.drop_last() =~= Seq::<MessageModel>::empty());
    assert(mid.last() == s[i]);
    assert(count_signal_id(mid, sender, ts) == if has_signal_id(s[i], sender, ts) {
        1nat
    } else {
        0nat
    });
    lemma_count_concat(pre, post, sender, ts);
}

impl Message {
    /// The de-duplication key: sender identity and protocol send time.
    pub fn signal_id(&self) -> (r: (String, i64))
        ensures
            r.0@ == self@.sender_uuid,
            r.1 == self@.timestamp,
    {
        (self.sender_uuid.clone(), self.timestamp)
    }

    /// A field-by-field copy whose view equals the source value's.
    pub fn duplicate(&self) -> (r: Message)
        ensures
            r@ == self@,
    {
        let r = Message {
            id: self.id.clone(),
            conversation_id: self.conversation_id.clone(),
            sender_uuid: self.sender_uuid.clone(),
            sender_name: clone_opt_string(&self.sender_name),
            timestamp: self.timestamp,
            server_timestamp: self.server_timestamp,
            received_at: self.received_at,
            content: self.content.duplicate(),
            quote: clone_opt_quote(&self.quote),
            is_outgoing: self.is_outgoing,
            is_read: self.is_read,
            is_deleted: self.is_deleted,
            is_edited: self.is_edited,
        };
        proof {
            assert(r@ =~= self@);
        }
        r
    }
}

impl MessageContent {
    /// A copy whose view equals the source value's.
    pub fn duplicate(&self) -> (r: MessageContent)
        ensures
            r@ == self@,
    {
        match self {
            MessageContent::Text { body } => {
                let r = MessageContent::Text { body: body.clone() };
                proof {
                    assert(r@ =~= self@);
                }
                r
            },
            MessageContent::Attachment { attachments } => {
                let mut out: Vec<AttachmentInfo> = Vec::new();
                let mut i: usize = 0;
                while i < attachments.len()
                    invariant
                        i <= attachments.len(),
                        out@.len() == i,
                        forall|k: int| 0 <= k < i ==> #[trigger] out@[k]@ == attachments@[k]@,
                    decreases attachments.len() - i,
                {
                    out.push(attachments[i].duplicate());
                    i = i + 1;
                }
                let r = MessageContent::Attachment { attachments: out };
                proof {
                    assert(out@.map_values(|a: AttachmentInfo| a@) =~= attachments@.map_values(
                        |a: AttachmentInfo| a@,
                    ));
                    assert(r@ =~= self@);
                }
                r
            },
            MessageContent::Sticker { pack_id, sticker_id } => {
                let r = MessageContent::Sticker {
                    pack_id: pack_id.clone(),
                    sticker_id: *sticker_id,
                };
                proof {
                    assert(r@ =~= self@);
                }
                r
            },
            MessageContent::RemoteDeleted => MessageContent::RemoteDeleted,
        }
    }
}

impl AttachmentInfo {
    /// A copy whose view equals the source value's.
    pub fn duplicate(&self) -> (r: AttachmentInfo)
        ensures
            r@ == self@,
    {
        let r = AttachmentInfo {
            id: clone_opt_string(&self.id),
            content_type: clone_opt_string(&self.content_type),
            filename: clone_opt_string(&self.filename),
            size: self.size,
            local_path: clone_opt_string(&self.local_path),
        };
        proof {
            assert(r@ =~= self@);
        }
        r
    }
}

impl Quote {
    /// A copy whose view equals the source value's.
    pub fn duplicate(&self) -> (r: Quote)
        ensures
            r@ == self@,
    {
        let r = Quote {
            author_uuid: self.author_uuid.clone(),
            timestamp: self.timestamp,
            text: clone_opt_string(&self.text),
        };
        proof {
            assert(r@ =~= self@);
        }
        r
    }
}

/// Copies an optional string, preserving the view.
pub fn clone_opt_string(s: &Option<String>) -> (r: Option<String>)
    ensures
        opt_view(r) == opt_view(*s),
{
    match s {
        Some(v) => Some(v.clone()),
        None => None,
    }
}

fn clone_opt_quote(q: &Option<Quote>) -> (r: Option<Quote>)
    ensures
        match (q, r) {
            (Some(a), Some(b)) => a@ == b@,
            (None, None) => true,
            _ => false,
        },
{
    match q {
        Some(v) => Some(v.duplicate()),
        None => None,
    }
}

impl Conversation {
    /// A copy whose view equals the source value's.
    pub fn duplicate(&self) -> (r: Conversation)
        ensures
            r@ == self@,
    {
        let r = Conversation {
            id: self.id.clone(),
            conversation_type: self.conversation_type,
            recipient_uuid: clone_opt_string(&self.recipient_uuid),
            recipient_number: clone_opt_string(&self.recipient_number),
            recipient_name: clone_opt_string(&self.recipient_name),
            group_id: clone_opt_string(&self.group_id),
            group_name: clone_opt_string(&self.group_name),
            last_message_timestamp: self.last_message_timestamp,
            unread_count: self.unread_count,
            is_archived: self.is_archived,
            is_muted: self.is_muted,
        };
        proof {
            assert(r@ =~= self@);
        }
        r
    }
}

} // verus!
