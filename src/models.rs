use crate::time::Timestamp;
use vstd::prelude::*;

verus! {

/// The kinds of failure of the persistence layer.
#[derive(Clone, Copy, Debug, PartialEq, Eq, Structural)]
pub enum StoreError {
    /// A unique key (a user code) is already taken.
    DuplicateKey,
    /// The user already waits for admission into the group.
    AlreadyRequested,
    /// The user is already a participant of the group.
    AlreadyMember,
    /// The group has reached its maximum number of members.
    GroupFull,
    /// The group has expired.
    GroupExpired,
    /// The author is not a participant of the group.
    NotAParticipant,
    /// A stored enumeration tag is none of the known ones.
    UnrecognizedEnumVariant,
    /// The referenced row does not exist.
    NotFound,
    /// A message lacks its content or its attachments.
    InvalidContent,
    /// No identifier is left to assign.
    Other,
}

pub struct User {
    pub id: i32,
    pub username: String,
    pub user_code: String,
    pub created_at: Timestamp,
}

pub struct NewUser {
    pub username: String,
    pub user_code: String,
    pub created_at: Timestamp,
}

pub struct Group {
    pub id: i32,
    pub name: String,
    pub group_code: String,
    pub user_id: i32,
    pub approval_require: Option<bool>,
    pub maximum_members: Option<i32>,
    pub created_at: Option<Timestamp>,
    pub expired_at: Option<Timestamp>,
}

pub struct NewGroup {
    pub name: String,
    pub group_code: String,
    pub user_id: i32,
    pub approval_require: Option<bool>,
    pub maximum_members: Option<i32>,
    pub created_at: Timestamp,
    pub expired_at: Option<Timestamp>,
}

pub struct WaitingList {
    pub id: i32,
    pub user_id: i32,
    pub group_id: i32,
    pub message: Option<String>,
    pub created_at: Timestamp,
}

pub struct NewWaitingList {
    pub user_id: i32,
    pub group_id: i32,
    pub message: Option<String>,
    pub created_at: Timestamp,
}

#[derive(Clone, Copy, Debug, PartialEq, Eq, Structural)]
pub struct Participant {
    pub id: i32,
    pub user_id: i32,
    pub group_id: i32,
}

/// The kind of a message, stored as a constrained textual enumeration.
#[allow(non_camel_case_types)]
#[derive(Clone, Copy, Debug, PartialEq, Eq, Structural)]
pub enum MessageTypeEnum {
    TEXT,
    ATTACHMENT,
}

/// The stored tag of each message kind.
pub open spec fn message_type_tag(t: MessageTypeEnum) -> Seq<char> {
    match t {
        MessageTypeEnum::TEXT => "TEXT"@,
        MessageTypeEnum::ATTACHMENT => "ATTACHMENT"@,
    }
}

/// The message kind that a stored tag names, or the failure on a foreign tag.
pub open spec fn decode_message_type(s: Seq<char>) -> Result<MessageTypeEnum, StoreError> {
    if s == "TEXT"@ {
        Ok(MessageTypeEnum::TEXT)
    } else if s == "ATTACHMENT"@ {
        Ok(MessageTypeEnum::ATTACHMENT)
    } else {
        Err(StoreError::UnrecognizedEnumVariant)
    }
}

impl MessageTypeEnum {
    pub fn default() -> (r: Self)
        ensures
            r == MessageTypeEnum::TEXT,
    {
        Self::TEXT
    }

    /// The tag under which the value is stored.
    pub fn to_sql(&self) -> (r: &'static str)
        ensures
            r@ == message_type_tag(*self),
    {
        match *self {
            MessageTypeEnum::TEXT => "TEXT",
            MessageTypeEnum::ATTACHMENT => "ATTACHMENT",
        }
    }

    /// Reads a stored tag; any other text is refused.
    pub fn from_sql(raw: &str) -> (r: Result<Self, StoreError>)
        ensures
            r == decode_message_type(raw@),
    {
        let s = raw.to_owned();
        if s == "TEXT".to_owned() {
            Ok(MessageTypeEnum::TEXT)
        } else if s == "ATTACHMENT".to_owned() {
            Ok(MessageTypeEnum::ATTACHMENT)
        } else {
            Err(StoreError::UnrecognizedEnumVariant)
        }
    }
}

/// The kind of an attachment, stored as a constrained textual enumeration.
#[allow(non_camel_case_types)]
#[derive(Clone, Copy, Debug, PartialEq, Eq, Structural)]
pub enum AttachmentTypeEnum {
    TEXT,
    IMAGE,
    VIDEO,
    AUDIO,
}

/// The stored tag of each attachment kind.
pub open spec fn attachment_type_tag(t: AttachmentTypeEnum) -> Seq<char> {
    match t {
        AttachmentTypeEnum::TEXT => "TEXT"@,
        AttachmentTypeEnum::IMAGE => "IMAGE"@,
        AttachmentTypeEnum::VIDEO => "VIDEO"@,
        AttachmentTypeEnum::AUDIO => "AUDIO"@,
    }
}

/// The attachment kind that a stored tag names, or the failure on a foreign tag.
pub open spec fn decode_attachment_type(s: Seq<char>) -> Result<AttachmentTypeEnum, StoreError> {
    if s == "TEXT"@ {
        Ok(AttachmentTypeEnum::TEXT)
    } else if s == "IMAGE"@ {
        Ok(AttachmentTypeEnum::IMAGE)
    } else if s == "VIDEO"@ {
        Ok(AttachmentTypeEnum::VIDEO)
    } else if s == "AUDIO"@ {
        Ok(AttachmentTypeEnum::AUDIO)
    } else {
        Err(StoreError::UnrecognizedEnumVariant)
    }
}

impl AttachmentTypeEnum {
    pub fn default() -> (r: Self)
        ensures
            r == AttachmentTypeEnum::TEXT,
    {
        Self::TEXT
    }

    /// The tag under which the value is stored.
    pub fn to_sql(&self) -> (r: &'static str)
        ensures
            r@ == attachment_type_tag(*self),
    {
        match *self {
            AttachmentTypeEnum::TEXT => "TEXT",
            AttachmentTypeEnum::IMAGE => "IMAGE",
            AttachmentTypeEnum::VIDEO => "VIDEO",
            AttachmentTypeEnum::AUDIO => "AUDIO",
        }
    }

    /// Reads a stored tag; any other text is refused.
    pub fn from_sql(raw: &str) -> (r: Result<Self, StoreError>)
        ensures
            r == decode_attachment_type(raw@),
    {
        let s = raw.to_owned();
        if s == "TEXT".to_owned() {
            Ok(AttachmentTypeEnum::TEXT)
        } else if s == "IMAGE".to_owned() {
            Ok(AttachmentTypeEnum::IMAGE)
        } else if s == "VIDEO".to_owned() {
            Ok(AttachmentTypeEnum::VIDEO)
        } else if s == "AUDIO".to_owned() {
            Ok(AttachmentTypeEnum::AUDIO)
        } else {
            Err(StoreError::UnrecognizedEnumVariant)
        }
    }
}

/// A stored message. `message_uuid` is the client-supplied de-duplication key.
pub struct Message {
    pub id: i32,
    pub message_uuid: u128,
    pub content: Option<String>,
    pub message_type: MessageTypeEnum,
    pub created_at: Timestamp,
    pub user_id: i32,
    pub group_id: i32,
}

pub struct NewMessage {
    pub message_uuid: u128,
    pub content: Option<String>,
    pub message_type: MessageTypeEnum,
    pub created_at: Timestamp,
    pub user_id: i32,
    pub group_id: i32,
}

pub struct Attachment {
    pub id: i32,
    pub url: String,
    pub attachment_type: AttachmentTypeEnum,
    pub message_id: i32,
}

pub struct NewAttachment {
    pub url: String,
    pub message_id: i32,
    pub attachment_type: AttachmentTypeEnum,
}

/// A row of the plain-text message table, whose kind is free text.
pub struct MessageText {
    pub id: i32,
    pub content: Option<String>,
    pub message_type: String,
    pub created_at: Timestamp,
    pub user_id: i32,
    pub group_id: i32,
}

pub struct NewMessageText {
    pub content: Option<String>,
    pub message_type: String,
    pub created_at: Timestamp,
    pub user_id: i32,
    pub group_id: i32,
}

/// Decoding the stored tag of a message kind gives that kind back.
pub proof fn lemma_message_type_round_trip(t: MessageTypeEnum)
    ensures
        decode_message_type(message_type_tag(t)) == Ok::<MessageTypeEnum, StoreError>(t),
{
    reveal_strlit("TEXT");
    reveal_strlit("ATTACHMENT");
    assert("TEXT"@.len() != "ATTACHMENT"@.len());
}

/// Decoding the stored tag of an attachment kind gives that kind back.
pub proof fn lemma_attachment_type_round_trip(t: AttachmentTypeEnum)
    ensures
        decode_attachment_type(attachment_type_tag(t)) == Ok::<AttachmentTypeEnum, StoreError>(t),
{
    reveal_strlit("TEXT");
    reveal_strlit("IMAGE");
    reveal_strlit("VIDEO");
    reveal_strlit("AUDIO");
    assert("TEXT"@.len() != "IMAGE"@.len());
    assert("TEXT"@.len() != "VIDEO"@.len());
    assert("TEXT"@.len() != "AUDIO"@.len());
    assert("IMAGE"@[0] != "VIDEO"@[0]);
    assert("IMAGE"@[0] != "AUDIO"@[0]);
    assert("VIDEO"@[0] != "AUDIO"@[0]);
}

/// A text outside the tag set of message kinds is refused, never defaulted.
pub proof fn lemma_message_type_foreign_tag(s: Seq<char>)
    requires
        forall|t: MessageTypeEnum| s != #[trigger] message_type_tag(t),
    ensures
        decode_message_type(s) == Err::<MessageTypeEnum, StoreError>(StoreError::UnrecognizedEnumVariant),
{
    assert(s != message_type_tag(MessageTypeEnum::TEXT));
    assert(s != message_type_tag(MessageTypeEnum::ATTACHMENT));
}

/// A text outside the tag set of attachment kinds is refused, never defaulted.
pub proof fn lemma_attachment_type_foreign_tag(s: Seq<char>)
    requires
        forall|t: AttachmentTypeEnum| s != #[trigger] attachment_type_tag(t),
    ensures
        decode_attachment_type(s) == Err::<AttachmentTypeEnum, StoreError>(StoreError::UnrecognizedEnumVariant),
{
    assert(s != attachment_type_tag(AttachmentTypeEnum::TEXT));
    assert(s != attachment_type_tag(AttachmentTypeEnum::IMAGE));
    assert(s != attachment_type_tag(AttachmentTypeEnum::VIDEO));
    assert(s != attachment_type_tag(AttachmentTypeEnum::AUDIO));
}

} // verus!
