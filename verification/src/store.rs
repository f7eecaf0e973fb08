//! The persistent store capability.
//!
//! `StorageRepository` is the engine's view of the message store: every
//! method carries a contract over the ghost `StoreModel`, and the engine is
//! verified against those contracts alone. `MemoryStorage` is a verified
//! in-memory implementation; a database-backed implementation can live
//! outside the library and satisfy the same signatures.

use vstd::prelude::*;

use crate::model::{
    ascending_by_timestamp, convs_view, count_signal_id, has_signal_id, lemma_count_insert,
    lemma_count_remove, lemma_count_zero_iff_none, lemma_msgs_view_insert, lemma_msgs_view_remove,
    msgs_view, ContentModel, Conversation, ConversationModel, ConversationType, Message,
    MessageContent, MessageModel,
};
use crate::text::str_eq;

verus! {

#[derive(Debug)]
pub enum StorageError {
    Database(String),
    NotFound(String),
    Serialization(String),
}

/// The abstract content of the store: all message rows and all conversation
/// rows.
#[verifier::ext_equal]
pub ghost struct StoreModel {
    pub msgs: Seq<MessageModel>,
    pub convs: Seq<ConversationModel>,
}

/// The store keeps message rows ordered by their protocol timestamp.
pub open spec fn store_inv(s: StoreModel) -> bool {
    ascending_by_timestamp(s.msgs)
}

/// Whether a message row belongs to the page query `(cid, before)`.
pub open spec fn msg_eligible(m: MessageModel, cid: Seq<char>, before: Option<i64>) -> bool {
    m.conversation_id == cid && match before {
        Some(b) => m.timestamp < b,
        None => true,
    }
}

/// The rows of `s` that belong to the page query, in their stored order.
pub open spec fn eligible_filter(s: Seq<MessageModel>, cid: Seq<char>, before: Option<i64>) -> Seq<
    MessageModel,
> {
    s.filter(|m: MessageModel| msg_eligible(m, cid, before))
}

/// All rows of the conversation `cid`, oldest first, restricted to rows
/// strictly older than `before` when it is given.
pub open spec fn eligible_msgs(s: StoreModel, cid: Seq<char>, before: Option<i64>) -> Seq<
    MessageModel,
> {
    eligible_filter(s.msgs, cid, before)
}

/// The newest `limit` rows of `eligible`, still oldest first.
pub open spec fn newest_page(eligible: Seq<MessageModel>, limit: nat) -> Seq<MessageModel> {
    if eligible.len() <= limit {
        eligible
    } else {
        eligible.skip(eligible.len() - limit)
    }
}

/// A conversation's watermark after a message with timestamp `ts` is saved:
/// the maximum of the old watermark (0 when unset) and `ts`.
pub open spec fn bump_conv(c: ConversationModel, ts: i64) -> ConversationModel {
    let base: i64 = match c.last_message_timestamp {
        Some(t) => t,
        None => 0,
    };
    ConversationModel {
        last_message_timestamp: Some(if base >= ts { base } else { ts }),
        ..c
    }
}

/// What saving `m` does to the store: the row is present afterwards, no
/// signal id gains more than the saved row itself, rows of other local ids
/// are kept, nothing is invented, and the owning conversation's watermark is
/// bumped.
pub open spec fn save_message_post(pre: StoreModel, post: StoreModel, m: MessageModel) -> bool {
    &&& post.msgs.contains(m)
    &&& count_signal_id(post.msgs, m.sender_uuid, m.timestamp) >= 1
    &&& forall|snd: Seq<char>, t: i64| #[trigger] count_signal_id(post.msgs, snd, t)
        <= count_signal_id(pre.msgs, snd, t) + if snd == m.sender_uuid && t == m.timestamp {
            1nat
        } else {
            0nat
        }
    &&& forall|i: int|
        0 <= i < post.msgs.len() ==> pre.msgs.contains(#[trigger] post.msgs[i]) || post.msgs[i]
            == m
    &&& forall|i: int|
        0 <= i < pre.msgs.len() && (#[trigger] pre.msgs[i]).id != m.id ==> post.msgs.contains(
            pre.msgs[i],
        )
    &&& post.convs.len() == pre.convs.len()
    &&& forall|i: int|
        0 <= i < pre.convs.len() ==> #[trigger] post.convs[i] == if pre.convs[i].id
            == m.conversation_id {
            bump_conv(pre.convs[i], m.timestamp)
        } else {
            pre.convs[i]
        }
}

/// A direct conversation for the peer `uuid`.
pub open spec fn is_direct_for(c: ConversationModel, uuid: Seq<char>) -> bool {
    c.conversation_type == ConversationType::Direct && c.recipient_uuid == Some(uuid)
}

/// A group conversation for the group `gid`.
pub open spec fn is_group_for(c: ConversationModel, gid: Seq<char>) -> bool {
    c.conversation_type == ConversationType::Group && c.group_id == Some(gid)
}

/// An existing direct conversation with contact details overridden by the
/// arguments that were given.
pub open spec fn patched_direct(
    c: ConversationModel,
    number: Option<Seq<char>>,
    name: Option<Seq<char>>,
) -> ConversationModel {
    ConversationModel {
        recipient_number: if number is Some {
            number
        } else {
            c.recipient_number
        },
        recipient_name: if name is Some {
            name
        } else {
            c.recipient_name
        },
        ..c
    }
}

/// An existing group conversation with its name overridden when one was
/// given.
pub open spec fn patched_group(c: ConversationModel, name: Option<Seq<char>>) -> ConversationModel {
    ConversationModel {
        group_name: if name is Some {
            name
        } else {
            c.group_name
        },
        ..c
    }
}

/// A message row after an edit replaced its content.
pub open spec fn edited_msg(m: MessageModel, content: ContentModel) -> MessageModel {
    MessageModel { content: content, is_edited: true, ..m }
}

/// A message row after it was marked read.
pub open spec fn read_msg(m: MessageModel) -> MessageModel {
    MessageModel { is_read: true, ..m }
}

/// Descending order of conversations by watermark, unset watermarks last.
pub open spec fn watermark_key(c: ConversationModel) -> int {
    match c.last_message_timestamp {
        Some(t) => t as int,
        None => (i64::MIN as int) - 1,
    }
}

/// Conversations sorted newest-first by watermark.
pub open spec fn convs_sorted_desc(s: Seq<ConversationModel>) -> bool {
    forall|i: int, j: int|
        0 <= i < j < s.len() ==> #[trigger] watermark_key(s[i]) >= #[trigger] watermark_key(s[j])
}

/// The store capability, as the engine consumes it. Methods that mutate take
/// `&mut self`; their contracts relate the store model before and after.
pub trait StorageRepository: Sized {
    /// The abstract store content. An implementation outside the verifier
    /// may leave this at its default; the contracts below then promise
    /// nothing about it.
    open spec fn store(&self) -> StoreModel {
        vstd::pervasive::arbitrary()
    }

    /// Persists one message row, replacing any row with the same local id,
    /// and bumps the owning conversation's watermark.
    fn save_message(&mut self, message: &Message) -> (r: Result<(), StorageError>)
        requires
            store_inv(old(self).store()),
        ensures
            store_inv(final(self).store()),
            r is Ok ==> save_message_post(old(self).store(), final(self).store(), message@),
            r is Err ==> final(self).store() == old(self).store(),
    ;

    /// Looks a row up by its signal id `(sender_uuid, timestamp)`. `None`
    /// means no row with that id is stored.
    fn get_message_by_signal_id(&self, sender_uuid: &str, timestamp: i64) -> (r: Option<Message>)
        ensures
            match r {
                Some(m) => has_signal_id(m@, sender_uuid@, timestamp) && self.store().msgs.contains(
                    m@,
                ),
                None => count_signal_id(self.store().msgs, sender_uuid@, timestamp) == 0,
            },
    ;

    /// The newest `limit` rows of a conversation, oldest first; with
    /// `before_timestamp` given, only rows strictly older than it.
    fn list_messages(
        &self,
        conversation_id: &str,
        limit: usize,
        before_timestamp: Option<i64>,
    ) -> (r: Result<Vec<Message>, StorageError>)
        requires
            store_inv(self.store()),
        ensures
            r matches Ok(page) ==> msgs_view(page@) == newest_page(
                eligible_msgs(self.store(), conversation_id@, before_timestamp),
                limit as nat,
            ),
    ;

    /// All conversations, newest watermark first.
    fn list_conversations(&self) -> (r: Result<Vec<Conversation>, StorageError>)
        ensures
            r matches Ok(cs) ==> convs_sorted_desc(convs_view(cs@)) && convs_view(
                cs@,
            ).to_multiset() == self.store().convs.to_multiset(),
    ;

    /// Finds the direct conversation for a peer, updating its contact
    /// details from the arguments, or creates it.
    fn get_or_create_direct_conversation(
        &mut self,
        recipient_uuid: &str,
        recipient_number: Option<&String>,
        recipient_name: Option<&String>,
    ) -> (r: Result<Conversation, StorageError>)
        requires
            store_inv(old(self).store()),
        ensures
            store_inv(final(self).store()),
            final(self).store().msgs == old(self).store().msgs,
            r matches Ok(c) ==> get_or_create_direct_post(
                old(self).store(),
                final(self).store(),
                c@,
                recipient_uuid@,
                opt_ref_view(recipient_number),
                opt_ref_view(recipient_name),
            ),
            r is Err ==> final(self).store() == old(self).store(),
    ;

    /// Finds the group conversation for a group id, updating its name from
    /// the argument, or creates it.
    fn get_or_create_group_conversation(
        &mut self,
        group_id: &str,
        group_name: Option<&String>,
    ) -> (r: Result<Conversation, StorageError>)
        requires
            store_inv(old(self).store()),
        ensures
            store_inv(final(self).store()),
            final(self).store().msgs == old(self).store().msgs,
            r matches Ok(c) ==> get_or_create_group_post(
                old(self).store(),
                final(self).store(),
                c@,
                group_id@,
                opt_ref_view(group_name),
            ),
            r is Err ==> final(self).store() == old(self).store(),
    ;

    /// Replaces the content of every row with the given signal id and marks
    /// it edited.
    fn update_message_content(
        &mut self,
        sender_uuid: &str,
        timestamp: i64,
        new_content: &MessageContent,
    ) -> (r: Result<(), StorageError>)
        requires
            store_inv(old(self).store()),
        ensures
            store_inv(final(self).store()),
            final(self).store().convs == old(self).store().convs,
            r is Ok ==> final(self).store().msgs.len() == old(self).store().msgs.len() && forall|
                i: int,
            |
                0 <= i < old(self).store().msgs.len() ==> #[trigger] final(self).store().msgs[i]
                    == if has_signal_id(old(self).store().msgs[i], sender_uuid@, timestamp) {
                    edited_msg(old(self).store().msgs[i], new_content@)
                } else {
                    old(self).store().msgs[i]
                },
            r is Err ==> final(self).store() == old(self).store(),
    ;

    /// Marks every row of a conversation up to a timestamp as read.
    fn mark_messages_read(&mut self, conversation_id: &str, up_to_timestamp: i64) -> (r: Result<
        (),
        StorageError,
    >)
        requires
            store_inv(old(self).store()),
        ensures
            store_inv(final(self).store()),
            final(self).store().convs == old(self).store().convs,
            r is Ok ==> final(self).store().msgs.len() == old(self).store().msgs.len() && forall|
                i: int,
            |
                0 <= i < old(self).store().msgs.len() ==> #[trigger] final(self).store().msgs[i]
                    == if old(self).store().msgs[i].conversation_id == conversation_id@ && old(
                    self,
                ).store().msgs[i].timestamp <= up_to_timestamp {
                    read_msg(old(self).store().msgs[i])
                } else {
                    old(self).store().msgs[i]
                },
            r is Err ==> final(self).store() == old(self).store(),
    ;

    /// Deletes the first row with the given local id, if one is stored.
    fn delete_message(&mut self, id: &str) -> (r: Result<(), StorageError>)
        requires
            store_inv(old(self).store()),
        ensures
            store_inv(final(self).store()),
            final(self).store().convs == old(self).store().convs,
            r is Ok ==> delete_message_post(old(self).store(), final(self).store(), id@),
            r is Err ==> final(self).store() == old(self).store(),
    ;
}

/// The view of an optional borrowed string.
pub open spec fn opt_ref_view(o: Option<&String>) -> Option<Seq<char>> {
    match o {
        Some(s) => Some(s@),
        None => None,
    }
}

/// What get-or-create does for a direct conversation: the first match is
/// patched in place, or a fresh conversation is appended.
pub open spec fn get_or_create_direct_post(
    pre: StoreModel,
    post: StoreModel,
    c: ConversationModel,
    uuid: Seq<char>,
    number: Option<Seq<char>>,
    name: Option<Seq<char>>,
) -> bool {
    ||| (exists|j: int|
        {
            &&& 0 <= j < pre.convs.len()
            &&& is_direct_for(#[trigger] pre.convs[j], uuid)
            &&& (forall|k: int| 0 <= k < j ==> !is_direct_for(#[trigger] pre.convs[k], uuid))
            &&& c == patched_direct(pre.convs[j], number, name)
            &&& post.convs == pre.convs.update(j, c)
        })
    ||| {
        &&& (forall|k: int|
            0 <= k < pre.convs.len() ==> !is_direct_for(#[trigger] pre.convs[k], uuid))
        &&& is_direct_for(c, uuid)
        &&& c.recipient_number == number
        &&& c.recipient_name == name
        &&& c.group_id is None
        &&& c.group_name is None
        &&& c.last_message_timestamp is None
        &&& c.unread_count == 0
        &&& !c.is_archived
        &&& !c.is_muted
        &&& post.convs == pre.convs.push(c)
    }
}

/// What get-or-create does for a group conversation.
pub open spec fn get_or_create_group_post(
    pre: StoreModel,
    post: StoreModel,
    c: ConversationModel,
    gid: Seq<char>,
    name: Option<Seq<char>>,
) -> bool {
    ||| (exists|j: int|
        {
            &&& 0 <= j < pre.convs.len()
            &&& is_group_for(#[trigger] pre.convs[j], gid)
            &&& (forall|k: int| 0 <= k < j ==> !is_group_for(#[trigger] pre.convs[k], gid))
            &&& c == patched_group(pre.convs[j], name)
            &&& post.convs == pre.convs.update(j, c)
        })
    ||| {
        &&& (forall|k: int| 0 <= k < pre.convs.len() ==> !is_group_for(#[trigger] pre.convs[k], gid))
        &&& is_group_for(c, gid)
        &&& c.group_name == name
        &&& c.recipient_uuid is None
        &&& c.recipient_number is None
        &&& c.recipient_name is None
        &&& c.last_message_timestamp is None
        &&& c.unread_count == 0
        &&& !c.is_archived
        &&& !c.is_muted
        &&& post.convs == pre.convs.push(c)
    }
}

/// What deleting a local id does: the first matching row goes, or nothing
/// changes when no row matches.
pub open spec fn delete_message_post(pre: StoreModel, post: StoreModel, id: Seq<char>) -> bool {
    ||| (exists|j: int|
        {
            &&& 0 <= j < pre.msgs.len()
            &&& (#[trigger] pre.msgs[j]).id == id
            &&& (forall|k: int| 0 <= k < j ==> (#[trigger] pre.msgs[k]).id != id)
            &&& post.msgs == pre.msgs.remove(j)
        })
    ||| {
        &&& (forall|k: int| 0 <= k < pre.msgs.len() ==> (#[trigger] pre.msgs[k]).id != id)
        &&& post.msgs == pre.msgs
    }
}

/// A verified in-memory store: message rows kept ordered by timestamp.
pub struct MemoryStorage {
    pub msgs: Vec<Message>,
    pub convs: Vec<Conversation>,
}

impl MemoryStorage {
    /// An empty store.
    pub fn new() -> (r: MemoryStorage)
        ensures
            store_inv(r.store()),
            r.store().msgs.len() == 0,
            r.store().convs.len() == 0,
    {
        MemoryStorage { msgs: Vec::new(), convs: Vec::new() }
    }
}

impl StorageRepository for MemoryStorage {
    open spec fn store(&self) -> StoreModel {
        StoreModel { msgs: msgs_view(self.msgs@), convs: convs_view(self.convs@) }
    }

    #[verifier::loop_isolation(false)]
    #[verifier::rlimit(60)]
    fn save_message(&mut self, message: &Message) -> (r: Result<(), StorageError>) {
        let ghost pre = self.store();
        // Replace semantics: drop any row with the same local id first.
        let mut j: usize = 0;
        let mut found: Option<usize> = None;
        while j < self.msgs.len()
            invariant
                j <= self.msgs@.len(),
                self == old(self),
                match found {
                    Some(f) => f < self.msgs@.len() && pre.msgs[f as int].id == message@.id,
                    None => forall|k: int|
                        0 <= k < j ==> (#[trigger] pre.msgs[k]).id != message@.id,
                },
            decreases self.msgs@.len() - j,
        {
            proof {
                assert(pre.msgs[j as int] == self.msgs@[j as int]@);
            }
            if found.is_none() && str_eq(self.msgs[j].id.as_str(), message.id.as_str()) {
                found = Some(j);
            }
            j = j + 1;
        }
        if let Some(f) = found {
            self.msgs.remove(f);
            proof {
                lemma_msgs_view_remove(old(self).msgs@, f as int);
            }
        }
        let ghost mid = msgs_view(self.msgs@);
        proof {
            if let Some(f) = found {
                assert(mid =~= pre.msgs.remove(f as int));
                lemma_remove_keeps_ascending(pre.msgs, f as int);
            } else {
                assert(mid =~= pre.msgs);
            }
            assert(ascending_by_timestamp(mid));
        }
        // Keep rows ordered by timestamp: insert before the first newer row.
        let mut pos: usize = 0;
        while pos < self.msgs.len() && self.msgs[pos].timestamp <= message.timestamp
            invariant
                pos <= self.msgs@.len(),
                msgs_view(self.msgs@) == mid,
                self.convs@ == old(self).convs@,
                forall|k: int| 0 <= k < pos ==> (#[trigger] mid[k]).timestamp <= message@.timestamp,
            decreases self.msgs@.len() - pos,
        {
            proof {
                assert(mid[pos as int] == self.msgs@[pos as int]@);
            }
            pos = pos + 1;
        }
        let ghost gpos = pos as int;
        proof {
            if gpos < mid.len() {
                assert(mid[gpos] == self.msgs@[gpos]@);
            }
        }
        let copy = message.duplicate();
        let ghost pre_insert = self.msgs@;
        self.msgs.insert(pos, copy);
        proof {
            lemma_msgs_view_insert(pre_insert, gpos, copy);
            assert(msgs_view(self.msgs@) =~= mid.insert(gpos, message@));
        }
        let ghost post_msgs = msgs_view(self.msgs@);
        proof {
            let gfound: Option<int> = match found {
                Some(f) => Some(f as int),
                None => None,
            };
            lemma_save_msgs_sorted(pre.msgs, mid, post_msgs, message@, gpos);
            lemma_save_msgs_post(pre.msgs, mid, post_msgs, message@, gfound, gpos);
        }
        // Bump the owning conversation's watermark.
        let ghost pre_convs = convs_view(self.convs@);
        let mut ci: usize = 0;
        while ci < self.convs.len()
            invariant
                ci <= self.convs@.len(),
                self.convs@.len() == pre_convs.len(),
                msgs_view(self.msgs@) == post_msgs,
                forall|k: int|
                    0 <= k < ci ==> #[trigger] convs_view(self.convs@)[k] == if pre_convs[k].id
                        == message@.conversation_id {
                        bump_conv(pre_convs[k], message@.timestamp)
                    } else {
                        pre_convs[k]
                    },
                forall|k: int|
                    ci <= k < pre_convs.len() ==> #[trigger] convs_view(self.convs@)[k]
                        == pre_convs[k],
            decreases self.convs@.len() - ci,
        {
            proof {
                assert(convs_view(self.convs@)[ci as int] == self.convs@[ci as int]@);
            }
            if str_eq(self.convs[ci].id.as_str(), message.conversation_id.as_str()) {
                let base: i64 = match self.convs[ci].last_message_timestamp {
                    Some(t) => t,
                    None => 0,
                };
                let wm: i64 = if base >= message.timestamp {
                    base
                } else {
                    message.timestamp
                };
                let mut patched = self.convs[ci].duplicate();
                patched.last_message_timestamp = Some(wm);
                proof {
                    assert(self.convs@[ci as int]@ == pre_convs[ci as int]);
                    assert(patched@ =~= bump_conv(pre_convs[ci as int], message@.timestamp));
                }
                let ghost before_set = self.convs@;
                self.convs.set(ci, patched);
                proof {
                    assert(convs_view(self.convs@) =~= convs_view(before_set).update(
                        ci as int,
                        patched@,
                    ));
                }
            }
            ci = ci + 1;
        }
        Ok(())
    }

    #[verifier::loop_isolation(false)]
    fn get_message_by_signal_id(&self, sender_uuid: &str, timestamp: i64) -> (r: Option<Message>) {
        let mut i: usize = 0;
        while i < self.msgs.len()
            invariant
                i <= self.msgs@.len(),
                forall|k: int|
                    0 <= k < i ==> !has_signal_id(
                        #[trigger] msgs_view(self.msgs@)[k],
                        sender_uuid@,
                        timestamp,
                    ),
            decreases self.msgs@.len() - i,
        {
            proof {
                assert(msgs_view(self.msgs@)[i as int] == self.msgs@[i as int]@);
            }
            if str_eq(self.msgs[i].sender_uuid.as_str(), sender_uuid) && self.msgs[i].timestamp
                == timestamp {
                let m = self.msgs[i].duplicate();
                proof {
                    assert(msgs_view(self.msgs@)[i as int] == m@);
                    assert(self.store().msgs.contains(m@));
                }
                return Some(m);
            }
            i = i + 1;
        }
        proof {
            lemma_count_zero_iff_none(msgs_view(self.msgs@), sender_uuid@, timestamp);
        }
        None
    }

    #[verifier::loop_isolation(false)]
    fn list_messages(
        &self,
        conversation_id: &str,
        limit: usize,
        before_timestamp: Option<i64>,
    ) -> (r: Result<Vec<Message>, StorageError>) {
        let mut acc: Vec<Message> = Vec::new();
        let mut i: usize = 0;
        while i < self.msgs.len()
            invariant
                i <= self.msgs@.len(),
                msgs_view(acc@) == eligible_filter(
                    msgs_view(self.msgs@).take(i as int),
                    conversation_id@,
                    before_timestamp,
                ),
            decreases self.msgs@.len() - i,
        {
            let ghost pred = |m: MessageModel| msg_eligible(m, conversation_id@, before_timestamp);
            let ghost prefix = msgs_view(self.msgs@).take(i as int);
            let ghost prefix1 = msgs_view(self.msgs@).take(i as int + 1);
            proof {
                assert(msgs_view(self.msgs@)[i as int] == self.msgs@[i as int]@);
            }
            let eligible = str_eq(self.msgs[i].conversation_id.as_str(), conversation_id)
                && match before_timestamp {
                Some(b) => self.msgs[i].timestamp < b,
                None => true,
            };
            proof {
                assert(prefix1.drop_last() =~= prefix);
                assert(prefix1.last() == msgs_view(self.msgs@)[i as int]);
                reveal(Seq::filter);
                assert(eligible == pred(msgs_view(self.msgs@)[i as int]));
                assert(eligible_filter(prefix1, conversation_id@, before_timestamp)
                    == if eligible {
                    eligible_filter(prefix, conversation_id@, before_timestamp).push(
                        msgs_view(self.msgs@)[i as int],
                    )
                } else {
                    eligible_filter(prefix, conversation_id@, before_timestamp)
                });
            }
            if eligible {
                let ghost acc_before = acc@;
                let dup = self.msgs[i].duplicate();
                proof {
                    crate::model::lemma_msgs_view_push(acc_before, dup);
                }
                acc.push(dup);
                proof {
                    assert(msgs_view(acc@) =~= msgs_view(acc_before).push(
                        msgs_view(self.msgs@)[i as int],
                    ));
                }
            }
            i = i + 1;
        }
        proof {
            assert(msgs_view(self.msgs@).take(self.msgs@.len() as int) =~= msgs_view(self.msgs@));
            assert(msgs_view(acc@) == eligible_msgs(
                self.store(),
                conversation_id@,
                before_timestamp,
            ));
        }
        // Keep only the newest `limit` rows.
        if acc.len() > limit {
            let cut = acc.len() - limit;
            let ghost acc_full = acc@;
            let tail = acc.split_off(cut);
            proof {
                assert(msgs_view(tail@) =~= msgs_view(acc_full).skip(cut as int));
            }
            return Ok(tail);
        }
        Ok(acc)
    }

    fn list_conversations(&self) -> (r: Result<Vec<Conversation>, StorageError>) {
        Ok(sorted_convs_desc(&self.convs))
    }

    #[verifier::loop_isolation(false)]
    fn get_or_create_direct_conversation(
        &mut self,
        recipient_uuid: &str,
        recipient_number: Option<&String>,
        recipient_name: Option<&String>,
    ) -> (r: Result<Conversation, StorageError>) {
        let ghost pre = self.store();
        let mut i: usize = 0;
        while i < self.convs.len()
            invariant
                i <= self.convs@.len(),
                self == old(self),
                forall|k: int|
                    0 <= k < i ==> !is_direct_for(#[trigger] pre.convs[k], recipient_uuid@),
            decreases self.convs@.len() - i,
        {
            proof {
                assert(pre.convs[i as int] == self.convs@[i as int]@);
            }
            let matches_peer = match &self.convs[i].recipient_uuid {
                Some(u) => str_eq(u.as_str(), recipient_uuid),
                None => false,
            };
            if matches_peer && matches!(self.convs[i].conversation_type, ConversationType::Direct) {
                let mut patched = self.convs[i].duplicate();
                if let Some(n) = recipient_number {
                    patched.recipient_number = Some(n.clone());
                }
                if let Some(n) = recipient_name {
                    patched.recipient_name = Some(n.clone());
                }
                proof {
                    assert(patched@ =~= patched_direct(
                        pre.convs[i as int],
                        opt_ref_view(recipient_number),
                        opt_ref_view(recipient_name),
                    ));
                }
                let ghost before_set = self.convs@;
                let result = patched.duplicate();
                self.convs.set(i, patched);
                proof {
                    assert(convs_view(self.convs@) =~= pre.convs.update(i as int, result@));
                    assert(msgs_view(self.msgs@) == pre.msgs);
                }
                return Ok(result);
            }
            i = i + 1;
        }
        let fresh = Conversation {
            id: crate::sys::fresh_uuid(),
            conversation_type: ConversationType::Direct,
            recipient_uuid: Some(string_copy(recipient_uuid)),
            recipient_number: clone_opt_ref(recipient_number),
            recipient_name: clone_opt_ref(recipient_name),
            group_id: None,
            group_name: None,
            last_message_timestamp: None,
            unread_count: 0,
            is_archived: false,
            is_muted: false,
        };
        let result = fresh.duplicate();
        let ghost before_push = self.convs@;
        self.convs.push(fresh);
        proof {
            assert(convs_view(self.convs@) =~= pre.convs.push(result@));
        }
        Ok(result)
    }

    #[verifier::loop_isolation(false)]
    fn get_or_create_group_conversation(
        &mut self,
        group_id: &str,
        group_name: Option<&String>,
    ) -> (r: Result<Conversation, StorageError>) {
        let ghost pre = self.store();
        let mut i: usize = 0;
        while i < self.convs.len()
            invariant
                i <= self.convs@.len(),
                self == old(self),
                forall|k: int| 0 <= k < i ==> !is_group_for(#[trigger] pre.convs[k], group_id@),
            decreases self.convs@.len() - i,
        {
            proof {
                assert(pre.convs[i as int] == self.convs@[i as int]@);
            }
            let matches_group = match &self.convs[i].group_id {
                Some(g) => str_eq(g.as_str(), group_id),
                None => false,
            };
            if matches_group && matches!(self.convs[i].conversation_type, ConversationType::Group) {
                let mut patched = self.convs[i].duplicate();
                if let Some(n) = group_name {
                    patched.group_name = Some(n.clone());
                }
                proof {
                    assert(patched@ =~= patched_group(
                        pre.convs[i as int],
                        opt_ref_view(group_name),
                    ));
                }
                let result = patched.duplicate();
                self.convs.set(i, patched);
                proof {
                    assert(convs_view(self.convs@) =~= pre.convs.update(i as int, result@));
                }
                return Ok(result);
            }
            i = i + 1;
        }
        let fresh = Conversation {
            id: crate::sys::fresh_uuid(),
            conversation_type: ConversationType::Group,
            recipient_uuid: None,
            recipient_number: None,
            recipient_name: None,
            group_id: Some(string_copy(group_id)),
            group_name: clone_opt_ref(group_name),
            last_message_timestamp: None,
            unread_count: 0,
            is_archived: false,
            is_muted: false,
        };
        let result = fresh.duplicate();
        self.convs.push(fresh);
        proof {
            assert(convs_view(self.convs@) =~= pre.convs.push(result@));
        }
        Ok(result)
    }

    #[verifier::loop_isolation(false)]
    fn update_message_content(
        &mut self,
        sender_uuid: &str,
        timestamp: i64,
        new_content: &MessageContent,
    ) -> (r: Result<(), StorageError>) {
        let ghost pre = self.store();
        let mut i: usize = 0;
        while i < self.msgs.len()
            invariant
                i <= self.msgs@.len(),
                self.msgs@.len() == pre.msgs.len(),
                self.convs@ == old(self).convs@,
                forall|k: int|
                    0 <= k < i ==> #[trigger] msgs_view(self.msgs@)[k] == if has_signal_id(
                        pre.msgs[k],
                        sender_uuid@,
                        timestamp,
                    ) {
                        edited_msg(pre.msgs[k], new_content@)
                    } else {
                        pre.msgs[k]
                    },
                forall|k: int|
                    i <= k < pre.msgs.len() ==> #[trigger] msgs_view(self.msgs@)[k] == pre.msgs[k],
            decreases self.msgs@.len() - i,
        {
            proof {
                assert(msgs_view(self.msgs@)[i as int] == self.msgs@[i as int]@);
                assert(msgs_view(self.msgs@)[i as int] == pre.msgs[i as int]);
            }
            if str_eq(self.msgs[i].sender_uuid.as_str(), sender_uuid) && self.msgs[i].timestamp
                == timestamp {
                let mut patched = self.msgs[i].duplicate();
                patched.content = new_content.duplicate();
                patched.is_edited = true;
                proof {
                    assert(patched@ =~= edited_msg(pre.msgs[i as int], new_content@));
                }
                let ghost before_set = self.msgs@;
                self.msgs.set(i, patched);
                proof {
                    assert(msgs_view(self.msgs@) =~= msgs_view(before_set).update(
                        i as int,
                        patched@,
                    ));
                }
            }
            i = i + 1;
        }
        proof {
            let fin = msgs_view(self.msgs@);
            assert forall|a: int, b: int|
                0 <= a < b < fin.len() implies #[trigger] fin[a].timestamp
                <= #[trigger] fin[b].timestamp by {
                assert(fin[a].timestamp == pre.msgs[a].timestamp);
                assert(fin[b].timestamp == pre.msgs[b].timestamp);
                assert(pre.msgs[a].timestamp <= pre.msgs[b].timestamp);
            }
            assert(ascending_by_timestamp(fin));
        }
        Ok(())
    }

    #[verifier::loop_isolation(false)]
    fn mark_messages_read(&mut self, conversation_id: &str, up_to_timestamp: i64) -> (r: Result<
        (),
        StorageError,
    >) {
        let ghost pre = self.store();
        let mut i: usize = 0;
        while i < self.msgs.len()
            invariant
                i <= self.msgs@.len(),
                self.msgs@.len() == pre.msgs.len(),
                self.convs@ == old(self).convs@,
                forall|k: int|
                    0 <= k < i ==> #[trigger] msgs_view(self.msgs@)[k] == if pre.msgs[k].conversation_id
                        == conversation_id@ && pre.msgs[k].timestamp <= up_to_timestamp {
                        read_msg(pre.msgs[k])
                    } else {
                        pre.msgs[k]
                    },
                forall|k: int|
                    i <= k < pre.msgs.len() ==> #[trigger] msgs_view(self.msgs@)[k] == pre.msgs[k],
            decreases self.msgs@.len() - i,
        {
            proof {
                assert(msgs_view(self.msgs@)[i as int] == self.msgs@[i as int]@);
                assert(msgs_view(self.msgs@)[i as int] == pre.msgs[i as int]);
            }
            if str_eq(self.msgs[i].conversation_id.as_str(), conversation_id) && self.msgs[i].timestamp
                <= up_to_timestamp {
                let mut patched = self.msgs[i].duplicate();
                patched.is_read = true;
                proof {
                    assert(patched@ =~= read_msg(pre.msgs[i as int]));
                }
                let ghost before_set = self.msgs@;
                self.msgs.set(i, patched);
                proof {
                    assert(msgs_view(self.msgs@) =~= msgs_view(before_set).update(
                        i as int,
                        patched@,
                    ));
                }
            }
            i = i + 1;
        }
        proof {
            let fin = msgs_view(self.msgs@);
            assert forall|a: int, b: int|
                0 <= a < b < fin.len() implies #[trigger] fin[a].timestamp
                <= #[trigger] fin[b].timestamp by {
                assert(fin[a].timestamp == pre.msgs[a].timestamp);
                assert(fin[b].timestamp == pre.msgs[b].timestamp);
                assert(pre.msgs[a].timestamp <= pre.msgs[b].timestamp);
            }
            assert(ascending_by_timestamp(fin));
        }
        Ok(())
    }

    #[verifier::loop_isolation(false)]
    fn delete_message(&mut self, id: &str) -> (r: Result<(), StorageError>) {
        let ghost pre = self.store();
        let mut i: usize = 0;
        while i < self.msgs.len()
            invariant
                i <= self.msgs@.len(),
                self == old(self),
                forall|k: int| 0 <= k < i ==> (#[trigger] pre.msgs[k]).id != id@,
            decreases self.msgs@.len() - i,
        {
            proof {
                assert(pre.msgs[i as int] == self.msgs@[i as int]@);
            }
            if str_eq(self.msgs[i].id.as_str(), id) {
                let ghost before_remove = self.msgs@;
                self.msgs.remove(i);
                proof {
                    lemma_msgs_view_remove(before_remove, i as int);
                    assert(msgs_view(self.msgs@) =~= pre.msgs.remove(i as int));
                    lemma_remove_keeps_ascending(pre.msgs, i as int);
                    assert(ascending_by_timestamp(msgs_view(self.msgs@)));
                    assert(convs_view(self.convs@) == pre.convs);
                }
                return Ok(());
            }
            i = i + 1;
        }
        Ok(())
    }
}

/// Removing an element keeps the remaining rows ordered.
proof fn lemma_remove_keeps_ascending(s: Seq<MessageModel>, i: int)
    requires
        ascending_by_timestamp(s),
        0 <= i < s.len(),
    ensures
        ascending_by_timestamp(s.remove(i)),
{
    s.remove_ensures(i);
    let r = s.remove(i);
    assert forall|a: int, b: int|
        0 <= a < b < r.len() implies #[trigger] r[a].timestamp <= #[trigger] r[b].timestamp by {
        let aa = if a < i {
            a
        } else {
            a + 1
        };
        let bb = if b < i {
            b
        } else {
            b + 1
        };
        assert(r[a] == s[aa]);
        assert(r[b] == s[bb]);
        assert(s[aa].timestamp <= s[bb].timestamp);
    }
}

/// Inserting at the boundary between older and newer rows keeps the order.
proof fn lemma_save_msgs_sorted(
    pre: Seq<MessageModel>,
    mid: Seq<MessageModel>,
    post: Seq<MessageModel>,
    m: MessageModel,
    gpos: int,
)
    requires
        ascending_by_timestamp(mid),
        0 <= gpos <= mid.len(),
        post == mid.insert(gpos, m),
        forall|k: int| 0 <= k < gpos ==> (#[trigger] mid[k]).timestamp <= m.timestamp,
        gpos < mid.len() ==> mid[gpos].timestamp > m.timestamp,
    ensures
        ascending_by_timestamp(post),
{
    mid.insert_ensures(gpos, m);
    assert forall|a: int, b: int|
        0 <= a < b < post.len() implies #[trigger] post[a].timestamp
        <= #[trigger] post[b].timestamp by {
        if a < gpos && b < gpos {
            assert(post[a] == mid[a]);
            assert(post[b] == mid[b]);
            assert(mid[a].timestamp <= mid[b].timestamp);
        } else if a < gpos && b == gpos {
            assert(post[a] == mid[a]);
            assert(post[b] == m);
        } else if a < gpos && b > gpos {
            assert(post[a] == mid[a]);
            assert(post[b] == mid[b - 1]);
            if a < b - 1 {
                assert(mid[a].timestamp <= mid[b - 1].timestamp);
            }
        } else if a == gpos {
            assert(post[a] == m);
            assert(post[b] == mid[b - 1]);
            assert(mid[gpos].timestamp <= mid[b - 1].timestamp);
        } else {
            assert(post[a] == mid[a - 1]);
            assert(post[b] == mid[b - 1]);
            assert(mid[a - 1].timestamp <= mid[b - 1].timestamp);
        }
    }
}

/// What the remove-then-insert of a save does to row membership and counts.
proof fn lemma_save_msgs_post(
    pre: Seq<MessageModel>,
    mid: Seq<MessageModel>,
    post: Seq<MessageModel>,
    m: MessageModel,
    found: Option<int>,
    gpos: int,
)
    requires
        match found {
            Some(f) => 0 <= f < pre.len() && mid == pre.remove(f) && pre[f].id == m.id,
            None => mid == pre,
        },
        0 <= gpos <= mid.len(),
        post == mid.insert(gpos, m),
    ensures
        post.contains(m),
        count_signal_id(post, m.sender_uuid, m.timestamp) >= 1,
        forall|snd: Seq<char>, t: i64| #[trigger] count_signal_id(post, snd, t) <= count_signal_id(
            pre,
            snd,
            t,
        ) + if snd == m.sender_uuid && t == m.timestamp {
            1nat
        } else {
            0nat
        },
        forall|i: int| 0 <= i < post.len() ==> pre.contains(#[trigger] post[i]) || post[i] == m,
        forall|i: int|
            0 <= i < pre.len() && (#[trigger] pre[i]).id != m.id ==> post.contains(pre[i]),
{
    mid.insert_ensures(gpos, m);
    if let Some(f) = found {
        pre.remove_ensures(f);
    }
    assert(post[gpos] == m);
    assert(post.contains(m));
    assert forall|snd: Seq<char>, t: i64| #[trigger] count_signal_id(post, snd, t)
        <= count_signal_id(pre, snd, t) + (if snd == m.sender_uuid && t == m.timestamp {
        1nat
    } else {
        0nat
    }) by {
        lemma_count_insert(mid, gpos, m, snd, t);
        if let Some(f) = found {
            lemma_count_remove(pre, f, snd, t);
        }
    }
    assert(count_signal_id(post, m.sender_uuid, m.timestamp) >= 1) by {
        lemma_count_zero_iff_none(post, m.sender_uuid, m.timestamp);
        assert(has_signal_id(post[gpos], m.sender_uuid, m.timestamp));
    }
    assert forall|i: int|
        0 <= i < post.len() implies pre.contains(#[trigger] post[i]) || post[i] == m by {
        if i != gpos {
            let im = if i < gpos {
                i
            } else {
                i - 1
            };
            assert(post[i] == mid[im]);
            match found {
                Some(f) => {
                    let ip = if im < f {
                        im
                    } else {
                        im + 1
                    };
                    assert(mid[im] == pre[ip]);
                    assert(pre.contains(post[i]));
                },
                None => {
                    assert(pre.contains(post[i]));
                },
            }
        }
    }
    assert forall|i: int|
        0 <= i < pre.len() && (#[trigger] pre[i]).id != m.id implies post.contains(pre[i]) by {
        let im: int = match found {
            Some(f) => if i < f {
                i
            } else {
                i - 1
            },
            None => i,
        };
        assert(mid[im] == pre[i]);
        let ip = if im < gpos {
            im
        } else {
            im + 1
        };
        assert(post[ip] == mid[im]);
        assert(post.contains(pre[i]));
    }
}

/// Copies a borrowed string.
fn string_copy(s: &str) -> (r: String)
    ensures
        r@ == s@,
{
    s.to_owned()
}

fn clone_opt_ref(s: Option<&String>) -> (r: Option<String>)
    ensures
        crate::model::opt_view(r) == opt_ref_view(s),
{
    match s {
        Some(v) => Some(v.clone()),
        None => None,
    }
}

/// Whether `a` sorts at or before `b` in newest-first order.
pub fn watermark_ge(a: &Conversation, b: &Conversation) -> (r: bool)
    ensures
        r == (watermark_key(a@) >= watermark_key(b@)),
{
    match (&a.last_message_timestamp, &b.last_message_timestamp) {
        (Some(x), Some(y)) => *x >= *y,
        (Some(_), None) => true,
        (None, Some(_)) => false,
        (None, None) => true,
    }
}

/// A copy of `src` sorted newest-first by watermark (selection of the
/// largest remaining key, so the result is a permutation).
#[verifier::loop_isolation(false)]
fn sorted_convs_desc(src: &Vec<Conversation>) -> (r: Vec<Conversation>)
    ensures
        convs_sorted_desc(convs_view(r@)),
        convs_view(r@).to_multiset() == convs_view(src@).to_multiset(),
{
    broadcast use vstd::seq_lib::group_to_multiset_ensures;

    let mut rest: Vec<Conversation> = Vec::new();
    let mut i: usize = 0;
    while i < src.len()
        invariant
            i <= src@.len(),
            convs_view(rest@) == convs_view(src@).take(i as int),
        decreases src@.len() - i,
    {
        let dup = src[i].duplicate();
        proof {
            crate::model::lemma_convs_view_push(rest@, dup);
            assert(convs_view(src@)[i as int] == src@[i as int]@);
        }
        rest.push(dup);
        proof {
            assert(convs_view(rest@) =~= convs_view(src@).take(i as int + 1));
        }
        i = i + 1;
    }
    proof {
        assert(convs_view(src@).take(src@.len() as int) =~= convs_view(src@));
    }
    let mut out: Vec<Conversation> = Vec::new();
    while rest.len() > 0
        invariant
            convs_sorted_desc(convs_view(out@)),
            forall|a: int, b: int|
                0 <= a < out@.len() && 0 <= b < rest@.len() ==> watermark_key(
                    #[trigger] convs_view(out@)[a],
                ) >= watermark_key(#[trigger] convs_view(rest@)[b]),
            convs_view(out@).to_multiset().add(convs_view(rest@).to_multiset()) == convs_view(
                src@,
            ).to_multiset(),
        decreases rest@.len(),
    {
        // Pick the largest remaining watermark.
        let mut best: usize = 0;
        let mut k: usize = 1;
        while k < rest.len()
            invariant
                best < rest@.len(),
                k <= rest@.len(),
                forall|t: int|
                    0 <= t < k ==> watermark_key(convs_view(rest@)[best as int]) >= watermark_key(
                        #[trigger] convs_view(rest@)[t],
                    ),
            decreases rest@.len() - k,
        {
            proof {
                assert(convs_view(rest@)[best as int] == rest@[best as int]@);
                assert(convs_view(rest@)[k as int] == rest@[k as int]@);
            }
            if !watermark_ge(&rest[best], &rest[k]) {
                best = k;
            }
            k = k + 1;
        }
        let ghost rest_before = rest@;
        let ghost out_before = out@;
        let ghost rbv = convs_view(rest_before);
        let ghost obv = convs_view(out_before);
        let picked = rest.remove(best);
        proof {
            crate::model::lemma_convs_view_remove(rest_before, best as int);
            assert(convs_view(rest@) =~= rbv.remove(best as int));
            rbv.remove_ensures(best as int);
            assert(rbv[best as int] == picked@);
            crate::model::lemma_convs_view_push(out@, picked);
        }
        out.push(picked);
        proof {
            let ov = convs_view(out@);
            let rv = convs_view(rest@);
            assert(ov =~= obv.push(picked@));
            // The result stays ordered, and still dominates the remainder.
            assert forall|a: int, b: int|
                0 <= a < b < ov.len() implies watermark_key(#[trigger] ov[a]) >= watermark_key(
                #[trigger] ov[b],
            ) by {
                if b == ov.len() - 1 {
                    assert(ov[b] == picked@);
                    assert(ov[a] == obv[a]);
                    assert(watermark_key(obv[a]) >= watermark_key(rbv[best as int]));
                } else {
                    assert(ov[a] == obv[a]);
                    assert(ov[b] == obv[b]);
                    assert(watermark_key(obv[a]) >= watermark_key(obv[b]));
                }
            }
            assert forall|a: int, b: int|
                0 <= a < ov.len() && 0 <= b < rv.len() implies watermark_key(#[trigger] ov[a])
                >= watermark_key(#[trigger] rv[b]) by {
                let bb = if b < best as int {
                    b
                } else {
                    b + 1
                };
                assert(rv[b] == rbv[bb]);
                assert(watermark_key(rbv[best as int]) >= watermark_key(rbv[bb]));
                if a < ov.len() - 1 {
                    assert(ov[a] == obv[a]);
                    assert(watermark_key(obv[a]) >= watermark_key(rbv[best as int]));
                } else {
                    assert(ov[a] == picked@);
                }
            }
            // Multiset bookkeeping: one element moved from `rest` to `out`.
            let mo = obv.to_multiset();
            let mr = rbv.to_multiset();
            assert(rbv.contains(picked@));
            assert(mr.count(picked@) >= 1);
            assert(ov.to_multiset() =~= mo.insert(picked@));
            assert(rv.to_multiset() =~= mr.remove(picked@));
            assert(mo.insert(picked@).add(mr.remove(picked@)) =~= mo.add(mr));
        }
    }
    proof {
        assert(convs_view(rest@).to_multiset() =~= vstd::multiset::Multiset::<ConversationModel>::empty());
        assert(convs_view(out@).to_multiset().add(vstd::multiset::Multiset::<ConversationModel>::empty())
            =~= convs_view(out@).to_multiset());
    }
    out
}

} // verus!
