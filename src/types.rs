//! The records that the backup writes, as plain values.

use vstd::prelude::*;

verus! {

/// A downloaded file: its remote id and its path relative to the batch files.
#[derive(Clone, Debug, PartialEq, Eq)]
pub struct FileInfo {
    pub id: i64,
    pub path: String,
}

/// A point on the map. The coordinates are kept as the bit patterns of
/// IEEE 754 doubles, which the library only carries.
#[derive(Clone, Debug, PartialEq, Eq)]
pub struct GeoInfo {
    pub longitude_bits: u64,
    pub latitude_bits: u64,
    pub accuracy_radius: Option<i32>,
}

#[derive(Clone, Debug, PartialEq, Eq)]
pub struct GeoLiveInfo {
    pub point: Option<GeoInfo>,
    pub period: i32,
    pub heading: Option<i32>,
    pub proximity_notification_radius: Option<i32>,
}

#[derive(Clone, Debug, PartialEq, Eq)]
pub struct ContactInfo {
    pub phone_number: String,
    pub first_name: String,
    pub last_name: String,
    pub vcard: String,
}

/// What a message carries besides its text; exactly one per message with media.
#[derive(Clone, Debug, PartialEq, Eq)]
pub enum Attachment {
    File(FileInfo),
    Photo(FileInfo),
    Voice(FileInfo),
    Round(FileInfo),
    Geo(GeoInfo),
    GeoLive(GeoLiveInfo),
    Contact(ContactInfo),
    Dice { value: i32, emoticon: String },
    /// The service no longer holds the photo.
    PhotoExpired,
    /// Skipped: larger than the configured ceiling.
    TooLarge { size: i64 },
    /// The transfer failed for good; the cause, for a reader of the backup.
    Error(String),
}

#[derive(Clone, Copy, Debug, PartialEq, Eq)]
pub enum PhoneCallDiscardReason {
    PhoneCallDiscardReasonMissed,
    PhoneCallDiscardReasonDisconnect,
    PhoneCallDiscardReasonHangup,
    PhoneCallDiscardReasonBusy,
}

/// A participant of a chat.
#[derive(Clone, Debug, PartialEq, Eq)]
pub enum Member {
    Me,
    User {
        id: i64,
        username: Option<String>,
        first_name: String,
        last_name: Option<String>,
        verified: bool,
        contact: bool,
        mutual_contact: bool,
        deleted: bool,
    },
    IdOnly { id: i64 },
}

/// A service message's action.
#[derive(Clone, Debug, PartialEq, Eq)]
pub enum Action {
    PhoneCall { is_video: bool, call_id: i64, reason: Option<PhoneCallDiscardReason>, duration: i32 },
    ChatCreate { title: String },
    ChatEditTitle { new_title: String },
    GroupCall { duration: Option<i32>, id: i64, access_hash: i64 },
    InviteToGroupCall { id: i64, access_hash: i64, invites: Vec<Member> },
    HistoryClear,
    /// Any other action, described in words.
    UnsupportedByTgBackup(String),
}

#[derive(Clone, Debug, PartialEq, Eq)]
pub struct ForwardInfo {
    pub from_id: Option<i64>,
    pub from_name: Option<String>,
    pub date: i64,
}

#[derive(Clone, Copy, Debug, PartialEq, Eq)]
pub struct ReplyInfo {
    pub to_message_id: i32,
}

/// One message as it is stored in a batch file. `date` and `edit_date` are
/// seconds since the Unix epoch.
#[derive(Clone, Debug, PartialEq, Eq)]
pub struct MessageInfo {
    pub text: String,
    pub id: i32,
    pub date: i64,
    pub attachment: Option<Attachment>,
    pub edit_date: Option<i64>,
    pub mentioned: bool,
    pub outgoing: bool,
    pub pinned: bool,
    pub sender_id: Option<i64>,
    pub sender_name: Option<String>,
    pub forwarded_from: Option<ForwardInfo>,
    pub reply_to: Option<ReplyInfo>,
    pub action: Option<Action>,
}

impl MessageInfo {
    /// A message with text only: no attachment, sender, forward, reply or action.
    pub fn text_only(id: i32, date: i64, text: String) -> (r: MessageInfo)
        ensures
            r.id == id,
            r.date == date,
            r.text@ == text@,
            r.attachment is None,
            r.action is None,
    {
        MessageInfo {
            text,
            id,
            date,
            attachment: None,
            edit_date: None,
            mentioned: false,
            outgoing: false,
            pinned: false,
            sender_id: None,
            sender_name: None,
            forwarded_from: None,
            reply_to: None,
            action: None,
        }
    }

    /// The same message with `attachment` in place of its own.
    pub fn with_attachment(self, attachment: Option<Attachment>) -> (r: MessageInfo)
        ensures
            r == (MessageInfo { attachment, ..self }),
    {
        MessageInfo { attachment, ..self }
    }
}

/// The summary of a chat: the instant up to which a complete pass reached,
/// and the number of messages the source counted.
#[derive(Clone, Debug, PartialEq, Eq)]
pub struct ChatInfo {
    pub name: String,
    pub id: i64,
    pub loaded_up_to: i64,
    pub total_messages: usize,
}

pub fn chat_to_info(name: String, id: i64, loaded_up_to: i64, total_messages: usize) -> (r: ChatInfo)
    ensures
        r == (ChatInfo { name, id, loaded_up_to, total_messages }),
{
    ChatInfo { name, id, loaded_up_to, total_messages }
}

/// The record of a run: its start, its batch size and its chat filters.
#[derive(Clone, Debug, PartialEq, Eq)]
pub struct BackUpInfo {
    pub date: i64,
    pub batch_size: i32,
    pub included_chats: Option<Vec<i64>>,
    pub excluded_chats: Vec<i64>,
}

impl BackUpInfo {
    pub fn init(date: i64, loading_chats: Option<Vec<i64>>, excluded_chats: Vec<i64>, batch_size: i32) -> (r:
        BackUpInfo)
        ensures
            r == (BackUpInfo { date, batch_size, included_chats: loading_chats, excluded_chats }),
    {
        BackUpInfo { date, batch_size, included_chats: loading_chats, excluded_chats }
    }
}

} // verus!
