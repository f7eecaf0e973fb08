//! Inbound protocol events and account/contact records, as plain data. The
//! wire client deserializes into these shapes outside the library; the
//! reconciler consumes them here.

use vstd::prelude::*;

use crate::model::opt_view;

verus! {

#[derive(Debug, Clone)]
pub struct Account {
    pub number: String,
    pub uuid: Option<String>,
    pub device_id: Option<i32>,
}

#[derive(Debug, Clone)]
pub struct Contact {
    pub number: Option<String>,
    pub uuid: Option<String>,
    pub name: Option<String>,
    pub profile_name: Option<String>,
    pub color: Option<String>,
    pub blocked: bool,
}

impl Contact {
    /// The name shown for this contact: profile name, else address-book
    /// name, else phone number, else a placeholder.
    pub fn display_name(&self) -> (r: String)
        ensures
            r@ == match (
                opt_view(self.profile_name),
                opt_view(self.name),
                opt_view(self.number),
            ) {
                (Some(p), _, _) => p,
                (None, Some(n), _) => n,
                (None, None, Some(num)) => num,
                (None, None, None) => "Unknown"@,
            },
    {
        match &self.profile_name {
            Some(p) => p.clone(),
            None => match &self.name {
                Some(n) => n.clone(),
                None => match &self.number {
                    Some(num) => num.clone(),
                    None => "Unknown".to_owned(),
                },
            },
        }
    }

    /// The stable identifier used to address this contact: uuid, else number.
    pub fn identifier(&self) -> (r: Option<String>)
        ensures
            opt_view(r) == match (opt_view(self.uuid), opt_view(self.number)) {
                (Some(u), _) => Some(u),
                (None, Some(n)) => Some(n),
                (None, None) => None::<Seq<char>>,
            },
    {
        match &self.uuid {
            Some(u) => Some(u.clone()),
            None => match &self.number {
                Some(n) => Some(n.clone()),
                None => None,
            },
        }
    }
}

#[derive(Debug, Clone)]
pub struct Group {
    pub id: String,
    pub name: Option<String>,
    pub description: Option<String>,
    pub members: Vec<String>,
    pub is_blocked: bool,
    pub is_member: bool,
}

impl Group {
    /// The name shown for this group: its name, else its raw id.
    pub fn display_name(&self) -> (r: String)
        ensures
            r@ == match opt_view(self.name) {
                Some(n) => n,
                None => self.id@,
            },
    {
        match &self.name {
            Some(n) => n.clone(),
            None => self.id.clone(),
        }
    }
}

#[derive(Debug, Clone)]
pub struct Identity {
    pub number: Option<String>,
    pub uuid: Option<String>,
    pub fingerprint: Option<String>,
    pub safety_number: Option<String>,
    pub trust_level: Option<String>,
    pub added_date: Option<i64>,
}

#[derive(Debug, Clone)]
pub struct IncomingMessage {
    pub envelope: Envelope,
    pub account: Option<String>,
}

#[derive(Debug, Clone)]
pub struct Envelope {
    pub source: Option<String>,
    pub source_uuid: Option<String>,
    pub source_name: Option<String>,
    pub source_device: Option<i32>,
    pub timestamp: Option<i64>,
    pub data_message: Option<DataMessage>,
    pub sync_message: Option<SyncMessage>,
    pub receipt_message: Option<ReceiptMessage>,
    pub typing_message: Option<TypingMessage>,
    pub edit_message: Option<EditMessage>,
}

impl Envelope {
    /// The name shown for the sender: source name, else source address, else
    /// source uuid, else a placeholder.
    pub fn sender_display(&self) -> (r: String)
        ensures
            r@ == match (
                opt_view(self.source_name),
                opt_view(self.source),
                opt_view(self.source_uuid),
            ) {
                (Some(n), _, _) => n,
                (None, Some(s), _) => s,
                (None, None, Some(u)) => u,
                (None, None, None) => "Unknown"@,
            },
    {
        match &self.source_name {
            Some(n) => n.clone(),
            None => match &self.source {
                Some(s) => s.clone(),
                None => match &self.source_uuid {
                    Some(u) => u.clone(),
                    None => "Unknown".to_owned(),
                },
            },
        }
    }
}

#[derive(Debug, Clone)]
pub struct DataMessage {
    pub timestamp: Option<i64>,
    pub message: Option<String>,
    pub expires_in_seconds: Option<i32>,
    pub group_info: Option<GroupInfo>,
    pub attachments: Vec<Attachment>,
    pub quote: Option<Quote>,
    pub reaction: Option<Reaction>,
}

#[derive(Debug, Clone)]
pub struct EditMessage {
    pub target_sent_timestamp: i64,
    pub data_message: Option<DataMessage>,
}

#[derive(Debug, Clone)]
pub struct GroupInfo {
    pub group_id: String,
    pub group_type: Option<String>,
}

#[derive(Debug, Clone)]
pub struct Attachment {
    pub content_type: Option<String>,
    pub filename: Option<String>,
    pub id: Option<String>,
    pub size: Option<i64>,
}

#[derive(Debug, Clone)]
pub struct Quote {
    pub id: Option<i64>,
    pub author: Option<String>,
    pub author_uuid: Option<String>,
    pub text: Option<String>,
}

#[derive(Debug, Clone)]
pub struct Reaction {
    pub emoji: String,
    pub target_author: Option<String>,
    pub target_author_uuid: Option<String>,
    pub target_sent_timestamp: Option<i64>,
    pub is_remove: bool,
}

#[derive(Debug, Clone)]
pub struct SyncMessage {
    pub sent_message: Option<SentMessage>,
    pub read_messages: Vec<ReadMessage>,
}

#[derive(Debug, Clone)]
pub struct SentMessage {
    pub destination: Option<String>,
    pub destination_uuid: Option<String>,
    pub timestamp: Option<i64>,
    pub message: Option<String>,
    pub group_info: Option<GroupInfo>,
    pub attachments: Vec<Attachment>,
    pub edit_message: Option<EditMessage>,
}

#[derive(Debug, Clone)]
pub struct ReadMessage {
    pub sender: Option<String>,
    pub sender_uuid: Option<String>,
    pub timestamp: Option<i64>,
}

#[derive(Debug, Clone)]
pub struct ReceiptMessage {
    pub receipt_type: Option<String>,
    pub timestamps: Vec<i64>,
}

#[derive(Debug, Clone)]
pub struct TypingMessage {
    pub action: Option<String>,
    pub timestamp: Option<i64>,
    pub group_id: Option<String>,
}

#[derive(Debug, Clone)]
pub struct SendMessageParams {
    pub recipient: Option<Vec<String>>,
    pub group_id: Option<String>,
    pub message: String,
    pub attachments: Option<Vec<String>>,
    pub quote_timestamp: Option<i64>,
    pub quote_author: Option<String>,
}

#[derive(Debug, Clone)]
pub struct SendResult {
    pub timestamp: Option<i64>,
    pub results: Vec<SendResultItem>,
}

#[derive(Debug, Clone)]
pub struct SendResultItem {
    pub recipient_address: Option<RecipientAddress>,
    pub result_type: Option<String>,
}

#[derive(Debug, Clone)]
pub struct RecipientAddress {
    pub uuid: Option<String>,
    pub number: Option<String>,
}

} // verus!
