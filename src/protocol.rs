use crate::models::{Message, MessageTypeEnum, NewMessage, StoreError};
use crate::store::{is_member, message_survives, attachment_survives, Store};
use crate::time::{now, Timestamp};
use vstd::prelude::*;

verus! {

/// A status code with a short text, answering a request.
#[derive(Clone, Debug, PartialEq)]
pub struct ResultMessage {
    pub status_code: i32,
    pub message: String,
}

impl ResultMessage {
    pub fn new(status_code: i32, message: &str) -> (r: Self)
        ensures
            r.status_code == status_code,
            r.message@ == message@,
    {
        Self { status_code, message: message.to_owned() }
    }
}

/// Outcomes of authentication and of access checks, each with a fixed code:
/// 0 success, 1 timeout, 2 unsupported message type, 3 no permission,
/// 4 token expired or not found, 5 user code not resolved.
#[derive(Clone, Copy, Debug, PartialEq, Eq, Structural)]
pub enum AuthenticationStatusCode {
    Success,
    Timeout,
    UnsupportedMessageType,
    NoPermission,
    ExpireOrNotFound,
    Other,
}

pub open spec fn status_code(c: AuthenticationStatusCode) -> i32 {
    match c {
        AuthenticationStatusCode::Success => 0,
        AuthenticationStatusCode::Timeout => 1,
        AuthenticationStatusCode::UnsupportedMessageType => 2,
        AuthenticationStatusCode::NoPermission => 3,
        AuthenticationStatusCode::ExpireOrNotFound => 4,
        AuthenticationStatusCode::Other => 5,
    }
}

pub open spec fn status_text(c: AuthenticationStatusCode) -> Seq<char> {
    match c {
        AuthenticationStatusCode::Success => "Authenticated Successfully"@,
        AuthenticationStatusCode::Timeout => "Authentication Timeout"@,
        AuthenticationStatusCode::UnsupportedMessageType => "Only supports authenticated text message type"@,
        AuthenticationStatusCode::NoPermission => "User does not have permission to access this group"@,
        AuthenticationStatusCode::ExpireOrNotFound => "User token is expired or not found"@,
        AuthenticationStatusCode::Other => "Failed to get user from user code"@,
    }
}

/// Whether `r` is the fixed result of outcome `c`.
pub open spec fn is_result_of(r: ResultMessage, c: AuthenticationStatusCode) -> bool {
    r.status_code == status_code(c) && r.message@ == status_text(c)
}

impl AuthenticationStatusCode {
    /// The fixed result message of this outcome.
    pub fn into(self) -> (r: ResultMessage)
        ensures
            is_result_of(r, self),
    {
        match self {
            Self::Success => ResultMessage::new(0, "Authenticated Successfully"),
            Self::Timeout => ResultMessage::new(1, "Authentication Timeout"),
            Self::UnsupportedMessageType => ResultMessage::new(2, "Only supports authenticated text message type"),
            Self::NoPermission => ResultMessage::new(3, "User does not have permission to access this group"),
            Self::ExpireOrNotFound => ResultMessage::new(4, "User token is expired or not found"),
            Self::Other => ResultMessage::new(5, "Failed to get user from user code"),
        }
    }
}

/// The outcome reported to a connection for a failure of the store.
pub open spec fn error_status(e: StoreError) -> AuthenticationStatusCode {
    match e {
        StoreError::NotAParticipant | StoreError::GroupExpired | StoreError::NotFound => AuthenticationStatusCode::NoPermission,
        StoreError::InvalidContent => AuthenticationStatusCode::UnsupportedMessageType,
        _ => AuthenticationStatusCode::Other,
    }
}

pub fn status_for_error(e: StoreError) -> (r: AuthenticationStatusCode)
    ensures
        r == error_status(e),
{
    match e {
        StoreError::NotAParticipant | StoreError::GroupExpired | StoreError::NotFound => AuthenticationStatusCode::NoPermission,
        StoreError::InvalidContent => AuthenticationStatusCode::UnsupportedMessageType,
        _ => AuthenticationStatusCode::Other,
    }
}

/// Delivery state of a message as a client renders it.
#[derive(Clone, Copy, Debug, PartialEq, Eq, Structural)]
pub enum SMessageStatus {
    Sent,
    InProgress,
    Error,
}

/// A message as it travels on the wire.
#[derive(Clone, Debug, PartialEq)]
pub struct SMessageContent {
    pub message_uuid: u128,
    pub user_id: i32,
    pub group_id: i32,
    pub content: String,
    pub created_at: Timestamp,
    pub status: SMessageStatus,
}

impl SMessageContent {
    /// The wire form of a stored message: it counts as sent, and absent content
    /// becomes the empty string.
    pub fn from(value: Message) -> (r: Self)
        ensures
            r.message_uuid == value.message_uuid,
            r.user_id == value.user_id,
            r.group_id == value.group_id,
            value.content is Some ==> r.content == value.content->0,
            value.content is None ==> r.content@ == Seq::<char>::empty(),
            r.created_at == value.created_at,
            r.status == SMessageStatus::Sent,
    {
        let content = match value.content {
            Some(c) => c,
            None => String::new(),
        };
        Self {
            message_uuid: value.message_uuid,
            user_id: value.user_id,
            group_id: value.group_id,
            content,
            created_at: value.created_at,
            status: SMessageStatus::Sent,
        }
    }
}

/// A text message submitted by a client.
#[derive(Clone, Debug, PartialEq)]
pub struct SNewMessage {
    pub message_uuid: u128,
    pub group_id: i32,
    pub content: String,
}

impl SNewMessage {
    /// The row to store for this message, written by `user_id` at the given time.
    pub fn build_new_message_at(&self, user_id: i32, created_at: Timestamp) -> (r: NewMessage)
        ensures
            r == (NewMessage {
                message_uuid: self.message_uuid,
                content: Some(self.content),
                message_type: MessageTypeEnum::TEXT,
                created_at,
                user_id,
                group_id: self.group_id,
            }),
    {
        NewMessage {
            message_uuid: self.message_uuid,
            content: Some(self.content.clone()),
            message_type: MessageTypeEnum::TEXT,
            created_at,
            user_id,
            group_id: self.group_id,
        }
    }

    /// The row to store for this message, written by `user_id` now; `None`
    /// when the system clock cannot be read as a UTC date.
    pub fn build_new_message(&self, user_id: i32) -> (r: Option<NewMessage>)
        ensures
            r matches Some(m) ==> m == (NewMessage {
                message_uuid: self.message_uuid,
                content: Some(self.content),
                message_type: MessageTypeEnum::TEXT,
                created_at: m.created_at,
                user_id,
                group_id: self.group_id,
            }),
    {
        match now() {
            Some(t) => Some(self.build_new_message_at(user_id, t)),
            None => None,
        }
    }
}

/// The messages of the protocol.
#[derive(Clone, Debug, PartialEq)]
pub enum SMessageType {
    Authenticate(String),
    AuthenticateResponse(ResultMessage),
    SubscribeGroup(i32),
    SubscribeGroupResponse(ResultMessage),
    Send(SNewMessage),
    Receive(SMessageContent),
    Edit(SMessageContent),
    Delete(Vec<i32>),
    UnSupportMessage(String),
}

/// What the transport of a connection is asked to do after a message.
#[derive(Clone, Debug, PartialEq)]
pub enum Outcome {
    /// Send this message back on the same connection.
    Reply(SMessageType),
    /// Refuse the request with this result.
    Reject(ResultMessage),
    /// Deliver this message to every connection subscribed to one of the groups.
    Broadcast(Vec<i32>, SMessageType),
    /// Resolve this token to a user code and report back through
    /// `Session::complete_authentication`.
    ResolveToken(String),
}

/// Whether a connection subscribed to `subs`, acting for `uid`, may act in group `gid`.
pub open spec fn may_act(subs: Seq<i32>, store: Store, uid: i32, gid: i32) -> bool {
    subs.contains(gid) && is_member(store.participants@, uid, gid)
}

pub open spec fn rejects_with(r: Outcome, c: AuthenticationStatusCode) -> bool {
    r matches Outcome::Reject(m) && is_result_of(m, c)
}

pub open spec fn unsupported(r: Outcome) -> bool {
    r matches Outcome::Reply(SMessageType::UnSupportMessage(_))
}

/// The row stored for a submitted text message.
pub open spec fn send_row(uid: i32, n: SNewMessage, now: Timestamp) -> NewMessage {
    NewMessage {
        message_uuid: n.message_uuid,
        content: Some(n.content),
        message_type: MessageTypeEnum::TEXT,
        created_at: now,
        user_id: uid,
        group_id: n.group_id,
    }
}

/// Whether `fs` holds the rows of `os` but for the messages and attachments.
pub open spec fn same_membership(os: Store, fs: Store) -> bool {
    &&& fs.users@ == os.users@
    &&& fs.groups@ == os.groups@
    &&& fs.waiting@ == os.waiting@
    &&& fs.participants@ == os.participants@
}

/// What a `Send` does: refused unless the connection may act in the group;
/// otherwise stored, then delivered as `Receive` to the group.
pub open spec fn send_effect(subs: Seq<i32>, uid: i32, n: SNewMessage, now: Timestamp, os: Store, fs: Store, r: Outcome) -> bool {
    if !may_act(subs, os, uid, n.group_id) {
        rejects_with(r, AuthenticationStatusCode::NoPermission) && fs == os
    } else {
        match os.insert_decision(send_row(uid, n, now), 0) {
            Err(e) => rejects_with(r, error_status(e)) && fs == os,
            Ok(_) => {
                &&& fs.messages@ == os.messages@.push(
                    (Message {
                        id: os.next_id,
                        message_uuid: n.message_uuid,
                        content: Some(n.content),
                        message_type: MessageTypeEnum::TEXT,
                        created_at: now,
                        user_id: uid,
                        group_id: n.group_id,
                    }),
                )
                &&& fs.attachments@ == os.attachments@
                &&& same_membership(os, fs)
                &&& fs.next_id == os.next_id + 1
                &&& r matches Outcome::Broadcast(gs, SMessageType::Receive(c)) && gs@ == seq![n.group_id]
                    && c == (SMessageContent {
                    message_uuid: n.message_uuid,
                    user_id: uid,
                    group_id: n.group_id,
                    content: n.content,
                    created_at: now,
                    status: SMessageStatus::Sent,
                })
            },
        }
    }
}

/// Whether message `i` of `os` is one that `uid` may edit as `c` describes.
pub open spec fn edit_target(os: Store, uid: i32, c: SMessageContent, i: int) -> bool {
    &&& 0 <= i < os.messages@.len()
    &&& os.messages@[i].message_uuid == c.message_uuid
    &&& os.messages@[i].group_id == c.group_id
    &&& os.messages@[i].user_id == uid
}

/// The first message that `c` edits.
pub open spec fn first_edit_target(os: Store, uid: i32, c: SMessageContent) -> int {
    choose|i: int| edit_target(os, uid, c, i) && forall|j: int| 0 <= j < i ==> !edit_target(os, uid, c, j)
}

/// What an `Edit` does: refused unless the connection may act in the group and
/// the user wrote a message with that key there; otherwise the first such
/// message takes the new content and the edit is delivered to the group.
pub open spec fn edit_effect(subs: Seq<i32>, uid: i32, c: SMessageContent, os: Store, fs: Store, r: Outcome) -> bool {
    if !may_act(subs, os, uid, c.group_id) || !(exists|i: int| edit_target(os, uid, c, i)) {
        rejects_with(r, AuthenticationStatusCode::NoPermission) && fs == os
    } else {
        let i = first_edit_target(os, uid, c);
        let m = os.messages@[i];
        &&& fs.messages@ == os.messages@.update(i, (Message {
            id: m.id,
            message_uuid: m.message_uuid,
            content: Some(c.content),
            message_type: m.message_type,
            created_at: m.created_at,
            user_id: m.user_id,
            group_id: m.group_id,
        }))
        &&& fs.attachments@ == os.attachments@
        &&& same_membership(os, fs)
        &&& fs.next_id == os.next_id
        &&& r matches Outcome::Broadcast(gs, SMessageType::Edit(e)) && gs@ == seq![c.group_id] && e == c
    }
}

/// Whether `uid` may delete message `id`: it exists, the user wrote it, and
/// the connection may act in its group.
pub open spec fn deletable(subs: Seq<i32>, os: Store, uid: i32, id: i32) -> bool {
    let m = os.messages@[os.message_index(id)];
    os.has_message(id) && m.user_id == uid && may_act(subs, os, uid, m.group_id)
}

/// What a `Delete` does: refused unless every listed message is deletable;
/// otherwise they go, with their attachments, and the deletion is delivered to
/// the group of each.
pub open spec fn delete_effect(subs: Seq<i32>, uid: i32, ids: Seq<i32>, os: Store, fs: Store, r: Outcome) -> bool {
    if !(forall|k: int| 0 <= k < ids.len() ==> deletable(subs, os, uid, #[trigger] ids[k])) {
        rejects_with(r, AuthenticationStatusCode::NoPermission) && fs == os
    } else {
        &&& fs.messages@ == os.messages@.filter(message_survives(ids))
        &&& fs.attachments@ == os.attachments@.filter(attachment_survives(ids))
        &&& same_membership(os, fs)
        &&& fs.next_id == os.next_id
        &&& r matches Outcome::Broadcast(gs, SMessageType::Delete(d)) && d@ == ids && gs@.len() == ids.len()
            && forall|k: int| 0 <= k < ids.len() ==> #[trigger] gs@[k] == os.messages@[os.message_index(ids[k])].group_id
    }
}

fn find_edit_target(store: &Store, uid: i32, c: &SMessageContent) -> (r: Option<usize>)
    ensures
        r is None ==> !(exists|i: int| edit_target(*store, uid, *c, i)),
        r matches Some(i) ==> edit_target(*store, uid, *c, i as int) && forall|j: int| 0 <= j < i ==> !edit_target(*store, uid, *c, j),
{
    let mut i: usize = 0;
    while i < store.messages.len()
        invariant
            i <= store.messages@.len(),
            forall|j: int| 0 <= j < i ==> !edit_target(*store, uid, *c, j),
        decreases store.messages@.len() - i,
    {
        if store.messages[i].message_uuid == c.message_uuid && store.messages[i].group_id == c.group_id
            && store.messages[i].user_id == uid {
            return Some(i);
        }
        i = i + 1;
    }
    None
}

/// The state of one connection: unauthenticated while `user_id` is `None`,
/// then acting for that user in the groups it subscribed to.
pub struct Session {
    pub user_id: Option<i32>,
    pub subscriptions: Vec<i32>,
}

impl Session {
    pub fn new() -> (r: Session)
        ensures
            r.user_id is None,
            r.subscriptions@.len() == 0,
    {
        Session { user_id: None, subscriptions: Vec::new() }
    }

    fn is_subscribed(&self, gid: i32) -> (r: bool)
        ensures
            r == self.subscriptions@.contains(gid),
    {
        let mut i: usize = 0;
        while i < self.subscriptions.len()
            invariant
                i <= self.subscriptions@.len(),
                forall|k: int| 0 <= k < i ==> self.subscriptions@[k] != gid,
            decreases self.subscriptions@.len() - i,
        {
            if self.subscriptions[i] == gid {
                assert(self.subscriptions@[i as int] == gid);
                return true;
            }
            i = i + 1;
        }
        false
    }

    fn may_act_in(&self, store: &Store, uid: i32, gid: i32) -> (r: bool)
        ensures
            r == may_act(self.subscriptions@, *store, uid, gid),
    {
        self.is_subscribed(gid) && store.is_participant(uid, gid)
    }

    /// Ends authentication with what the token resolved to: a user code, or the
    /// failure of the resolution. A code of no registered user fails with `Other`.
    pub fn complete_authentication(&mut self, store: &Store, resolved: Result<String, AuthenticationStatusCode>) -> (r: SMessageType)
        ensures
            match resolved {
                Err(c) => r matches SMessageType::AuthenticateResponse(m) && is_result_of(m, c) && *final(self) == *old(self),
                Ok(code) => if store.has_user_code(code@) {
                    &&& r matches SMessageType::AuthenticateResponse(m) && is_result_of(m, AuthenticationStatusCode::Success)
                    &&& final(self).user_id matches Some(uid) && exists|i: int|
                        0 <= i < store.users@.len() && #[trigger] store.users@[i].user_code@ == code@ && store.users@[i].id == uid
                    &&& final(self).subscriptions@.len() == 0
                } else {
                    &&& r matches SMessageType::AuthenticateResponse(m) && is_result_of(m, AuthenticationStatusCode::Other)
                    &&& *final(self) == *old(self)
                },
            },
    {
        match resolved {
            Err(c) => SMessageType::AuthenticateResponse(c.into()),
            Ok(code) => match store.user_id_by_code(&code) {
                Some(uid) => {
                    self.user_id = Some(uid);
                    self.subscriptions = Vec::new();
                    SMessageType::AuthenticateResponse(AuthenticationStatusCode::Success.into())
                },
                None => SMessageType::AuthenticateResponse(AuthenticationStatusCode::Other.into()),
            },
        }
    }
    fn handle_send(&self, store: &mut Store, uid: i32, n: SNewMessage, now: Timestamp) -> (r: Outcome)
        requires
            old(store).wf(),
        ensures
            final(store).wf(),
            send_effect(self.subscriptions@, uid, n, now, *old(store), *final(store), r),
    {
        if !self.may_act_in(store, uid, n.group_id) {
            return Outcome::Reject(AuthenticationStatusCode::NoPermission.into());
        }
        let group_id = n.group_id;
        let row = n.build_new_message_at(uid, now);
        match store.insert_message(row, Vec::new()) {
            Err(e) => Outcome::Reject(status_for_error(e).into()),
            Ok(m) => {
                proof {
                    assert(old(store).attachments@ + crate::store::attachment_rows(Seq::empty(), m.id) =~= old(store).attachments@);
                }
                let mut gs: Vec<i32> = Vec::new();
                gs.push(group_id);
                proof {
                    assert(gs@ =~= seq![group_id]);
                }
                Outcome::Broadcast(gs, SMessageType::Receive(SMessageContent::from(m)))
            },
        }
    }

    fn handle_edit(&self, store: &mut Store, uid: i32, c: SMessageContent) -> (r: Outcome)
        requires
            old(store).wf(),
        ensures
            final(store).wf(),
            edit_effect(self.subscriptions@, uid, c, *old(store), *final(store), r),
    {
        if !self.may_act_in(store, uid, c.group_id) {
            return Outcome::Reject(AuthenticationStatusCode::NoPermission.into());
        }
        let i = match find_edit_target(store, uid, &c) {
            Some(i) => i,
            None => {
                return Outcome::Reject(AuthenticationStatusCode::NoPermission.into());
            },
        };
        proof {
            let os = *old(store);
            assert(edit_target(os, uid, c, i as int));
            let f = first_edit_target(os, uid, c);
            assert(edit_target(os, uid, c, f) && forall|j: int| 0 <= j < f ==> !edit_target(os, uid, c, j));
            if f < i {
                assert(!edit_target(os, uid, c, f));
            } else if f > i {
                assert(!edit_target(os, uid, c, i as int));
            }
            store.lemma_message_at(i as int);
        }
        let id = store.messages[i].id;
        let _edited = store.edit_message_content(id, c.content.clone());
        let mut gs: Vec<i32> = Vec::new();
        gs.push(c.group_id);
        proof {
            assert(gs@ =~= seq![c.group_id]);
        }
        Outcome::Broadcast(gs, SMessageType::Edit(c))
    }

    fn handle_delete(&self, store: &mut Store, uid: i32, ids: Vec<i32>) -> (r: Outcome)
        requires
            old(store).wf(),
        ensures
            final(store).wf(),
            delete_effect(self.subscriptions@, uid, ids@, *old(store), *final(store), r),
    {
        let mut gs: Vec<i32> = Vec::new();
        let mut k: usize = 0;
        while k < ids.len()
            invariant
                store.wf(),
                k <= ids@.len(),
                gs@.len() == k,
                forall|j: int| 0 <= j < k ==> deletable(self.subscriptions@, *store, uid, #[trigger] ids@[j]),
                forall|j: int| 0 <= j < k ==> #[trigger] gs@[j] == store.messages@[store.message_index(ids@[j])].group_id,
            decreases ids@.len() - k,
        {
            let i = match store.find_message(ids[k]) {
                Some(i) => i,
                None => {
                    return Outcome::Reject(AuthenticationStatusCode::NoPermission.into());
                },
            };
            if store.messages[i].user_id != uid || !self.may_act_in(store, uid, store.messages[i].group_id) {
                return Outcome::Reject(AuthenticationStatusCode::NoPermission.into());
            }
            gs.push(store.messages[i].group_id);
            k = k + 1;
        }
        store.delete_messages(&ids);
        Outcome::Broadcast(gs, SMessageType::Delete(ids))
    }

    fn handle_subscribe(&mut self, store: &Store, uid: i32, gid: i32) -> (r: Outcome)
        ensures
            final(self).user_id == old(self).user_id,
            is_member(store.participants@, uid, gid) ==> {
                &&& r matches Outcome::Reply(SMessageType::SubscribeGroupResponse(m))
                    && is_result_of(m, AuthenticationStatusCode::Success)
                &&& final(self).subscriptions@ == if old(self).subscriptions@.contains(gid) {
                    old(self).subscriptions@
                } else {
                    old(self).subscriptions@.push(gid)
                }
            },
            !is_member(store.participants@, uid, gid) ==> {
                &&& r matches Outcome::Reply(SMessageType::SubscribeGroupResponse(m))
                    && is_result_of(m, AuthenticationStatusCode::NoPermission)
                &&& *final(self) == *old(self)
            },
    {
        if !store.is_participant(uid, gid) {
            return Outcome::Reply(SMessageType::SubscribeGroupResponse(AuthenticationStatusCode::NoPermission.into()));
        }
        if !self.is_subscribed(gid) {
            self.subscriptions.push(gid);
        }
        Outcome::Reply(SMessageType::SubscribeGroupResponse(AuthenticationStatusCode::Success.into()))
    }
    /// Handles one message received on the connection at `now`.
    ///
    /// Before authentication only `Authenticate` is taken, and it asks the
    /// transport to resolve the token; after it, `SubscribeGroup`, `Send`,
    /// `Edit` and `Delete` are served. Every other message is answered with
    /// `UnSupportMessage`.
    pub fn handle(&mut self, store: &mut Store, msg: SMessageType, now: Timestamp) -> (r: Outcome)
        requires
            old(store).wf(),
        ensures
            final(store).wf(),
            final(self).user_id == old(self).user_id,
            match old(self).user_id {
                None => {
                    &&& *final(store) == *old(store)
                    &&& *final(self) == *old(self)
                    &&& match msg {
                        SMessageType::Authenticate(token) => r == Outcome::ResolveToken(token),
                        _ => unsupported(r),
                    }
                },
                Some(uid) => match msg {
                    SMessageType::SubscribeGroup(gid) => {
                        &&& *final(store) == *old(store)
                        &&& is_member(old(store).participants@, uid, gid) ==> {
                            &&& r matches Outcome::Reply(SMessageType::SubscribeGroupResponse(m))
                                && is_result_of(m, AuthenticationStatusCode::Success)
                            &&& final(self).subscriptions@ == if old(self).subscriptions@.contains(gid) {
                                old(self).subscriptions@
                            } else {
                                old(self).subscriptions@.push(gid)
                            }
                        }
                        &&& !is_member(old(store).participants@, uid, gid) ==> {
                            &&& r matches Outcome::Reply(SMessageType::SubscribeGroupResponse(m))
                                && is_result_of(m, AuthenticationStatusCode::NoPermission)
                            &&& *final(self) == *old(self)
                        }
                    },
                    SMessageType::Send(n) => *final(self) == *old(self)
                        && send_effect(old(self).subscriptions@, uid, n, now, *old(store), *final(store), r),
                    SMessageType::Edit(c) => *final(self) == *old(self)
                        && edit_effect(old(self).subscriptions@, uid, c, *old(store), *final(store), r),
                    SMessageType::Delete(ids) => *final(self) == *old(self)
                        && delete_effect(old(self).subscriptions@, uid, ids@, *old(store), *final(store), r),
                    _ => *final(self) == *old(self) && *final(store) == *old(store) && unsupported(r),
                },
            },
    {
        let uid = match self.user_id {
            None => {
                return match msg {
                    SMessageType::Authenticate(token) => Outcome::ResolveToken(token),
                    _ => Outcome::Reply(SMessageType::UnSupportMessage("Authenticate first".to_owned())),
                };
            },
            Some(uid) => uid,
        };
        match msg {
            SMessageType::SubscribeGroup(gid) => self.handle_subscribe(store, uid, gid),
            SMessageType::Send(n) => self.handle_send(store, uid, n, now),
            SMessageType::Edit(c) => self.handle_edit(store, uid, c),
            SMessageType::Delete(ids) => self.handle_delete(store, uid, ids),
            SMessageType::Authenticate(_) => Outcome::Reply(
                SMessageType::UnSupportMessage("Already authenticated".to_owned()),
            ),
            _ => Outcome::Reply(SMessageType::UnSupportMessage("Unsupported message".to_owned())),
        }
    }
}

} // verus!
