use crate::models::{
    Attachment, AttachmentTypeEnum, Group, Message, MessageTypeEnum, NewGroup, NewMessage,
    NewUser, Participant, StoreError, User, WaitingList,
};
use crate::time::Timestamp;
use vstd::prelude::*;

verus! {

/// Number of participants of group `gid` in `ps`.
pub open spec fn member_count(ps: Seq<Participant>, gid: i32) -> nat
    decreases ps.len(),
{
    if ps.len() == 0 {
        0
    } else {
        member_count(ps.drop_last(), gid) + if ps.last().group_id == gid {
            1nat
        } else {
            0nat
        }
    }
}

/// Whether `uid` is a participant of `gid` in `ps`.
pub open spec fn is_member(ps: Seq<Participant>, uid: i32, gid: i32) -> bool {
    exists|i: int| 0 <= i < ps.len() && #[trigger] ps[i].user_id == uid && ps[i].group_id == gid
}

/// Whether `uid` has a pending request to join `gid` in `ws`.
pub open spec fn has_request(ws: Seq<WaitingList>, uid: i32, gid: i32) -> bool {
    exists|i: int| 0 <= i < ws.len() && #[trigger] ws[i].user_id == uid && ws[i].group_id == gid
}

/// Whether a group asks for approval before admitting a member (open by default).
pub open spec fn approval_required(g: Group) -> bool {
    g.approval_require == Some(true)
}

/// Whether a group holding `count` members can admit one more (unbounded by default).
pub open spec fn has_room(g: Group, count: nat) -> bool {
    match g.maximum_members {
        Some(n) => count < n,
        None => true,
    }
}

/// Whether `count` members respect the bound of the group.
pub open spec fn within_capacity(g: Group, count: nat) -> bool {
    match g.maximum_members {
        Some(n) => count == 0 || count <= n,
        None => true,
    }
}

/// Whether the group's expiry lies before `now`.
pub open spec fn is_expired(g: Group, now: Timestamp) -> bool {
    match g.expired_at {
        Some(e) => now.spec_is_after(e),
        None => false,
    }
}

/// Whether a message with this content, kind and number of attachments may be stored:
/// a text message needs non-empty content, an attachment message at least one attachment.
pub open spec fn valid_content(content: Option<String>, t: MessageTypeEnum, n_attachments: nat) -> bool {
    match t {
        MessageTypeEnum::TEXT => content is Some && content->0@.len() > 0,
        MessageTypeEnum::ATTACHMENT => n_attachments > 0,
    }
}

pub proof fn lemma_member_count_push(ps: Seq<Participant>, p: Participant, gid: i32)
    ensures
        member_count(ps.push(p), gid) == member_count(ps, gid) + if p.group_id == gid {
            1nat
        } else {
            0nat
        },
{
    assert(ps.push(p).drop_last() =~= ps);
}

pub proof fn lemma_member_count_absent(ps: Seq<Participant>, gid: i32)
    requires
        forall|i: int| 0 <= i < ps.len() ==> #[trigger] ps[i].group_id != gid,
    ensures
        member_count(ps, gid) == 0,
    decreases ps.len(),
{
    if ps.len() > 0 {
        lemma_member_count_absent(ps.drop_last(), gid);
    }
}

/// What a join request produced: a pending request or a membership.
pub enum JoinOutcome {
    Waiting(WaitingList),
    Joined(Participant),
}

pub(crate) fn clone_text(t: &Option<String>) -> (r: Option<String>)
    ensures
        r == *t,
{
    match t {
        Some(s) => Some(s.clone()),
        None => None,
    }
}

/// Whether `a` and `b` hold the same users, groups, messages and attachments.
pub open spec fn same_but_membership(a: &Store, b: &Store) -> bool {
    &&& a.users@ == b.users@
    &&& a.groups@ == b.groups@
    &&& a.messages@ == b.messages@
    &&& a.attachments@ == b.attachments@
}

/// The attachment rows stored with message `mid`: the `k`-th takes identifier `mid + 1 + k`.
pub open spec fn attachment_rows(atts: Seq<(String, AttachmentTypeEnum)>, mid: i32) -> Seq<Attachment> {
    Seq::new(
        atts.len(),
        |k: int| Attachment { id: (mid + 1 + k) as i32, url: atts[k].0, attachment_type: atts[k].1, message_id: mid },
    )
}

/// Keeps the messages whose identifier is not listed.
pub open spec fn message_survives(ids: Seq<i32>) -> spec_fn(Message) -> bool {
    |m: Message| !ids.contains(m.id)
}

/// Keeps the attachments whose message is not listed.
pub open spec fn attachment_survives(ids: Seq<i32>) -> spec_fn(Attachment) -> bool {
    |a: Attachment| !ids.contains(a.message_id)
}

fn contains_id(ids: &Vec<i32>, x: i32) -> (r: bool)
    ensures
        r == ids@.contains(x),
{
    let mut i: usize = 0;
    while i < ids.len()
        invariant
            i <= ids@.len(),
            forall|k: int| 0 <= k < i ==> ids@[k] != x,
        decreases ids@.len() - i,
    {
        if ids[i] == x {
            assert(ids@[i as int] == x);
            return true;
        }
        i = i + 1;
    }
    false
}

fn clone_message(m: &Message) -> (r: Message)
    ensures
        r == *m,
{
    Message {
        id: m.id,
        message_uuid: m.message_uuid,
        content: clone_text(&m.content),
        message_type: m.message_type,
        created_at: m.created_at,
        user_id: m.user_id,
        group_id: m.group_id,
    }
}

fn clone_attachment(a: &Attachment) -> (r: Attachment)
    ensures
        r == *a,
{
    Attachment { id: a.id, url: a.url.clone(), attachment_type: a.attachment_type, message_id: a.message_id }
}

/// An in-memory relational store of users, groups, admission requests,
/// participants, messages and attachments.
///
/// Every row of every table takes its identifier from the shared counter
/// `next_id`, so identifiers are unique within each table.
pub struct Store {
    pub users: Vec<User>,
    pub groups: Vec<Group>,
    pub waiting: Vec<WaitingList>,
    pub participants: Vec<Participant>,
    pub messages: Vec<Message>,
    pub attachments: Vec<Attachment>,
    pub next_id: i32,
}

impl Store {
    pub open spec fn wf(&self) -> bool {
        &&& 0 <= self.next_id
        &&& forall|i: int| 0 <= i < self.users@.len() ==> #[trigger] self.users@[i].id < self.next_id
        &&& forall|i: int| 0 <= i < self.groups@.len() ==> #[trigger] self.groups@[i].id < self.next_id
        &&& forall|i: int| 0 <= i < self.waiting@.len() ==> #[trigger] self.waiting@[i].id < self.next_id
        &&& forall|i: int| 0 <= i < self.messages@.len() ==> #[trigger] self.messages@[i].id < self.next_id
        &&& forall|i: int| 0 <= i < self.attachments@.len() ==> #[trigger] self.attachments@[i].id < self.next_id
        &&& forall|i: int| #![trigger self.participants@[i]] 0 <= i < self.participants@.len() ==> {
            &&& self.participants@[i].id < self.next_id
            &&& self.participants@[i].group_id < self.next_id
        }
        &&& forall|i: int, j: int|
            0 <= i < j < self.users@.len() ==> #[trigger] self.users@[i].id != #[trigger] self.users@[j].id
        &&& forall|i: int, j: int|
            0 <= i < j < self.groups@.len() ==> #[trigger] self.groups@[i].id != #[trigger] self.groups@[j].id
        &&& forall|i: int, j: int|
            0 <= i < j < self.participants@.len() ==> #[trigger] self.participants@[i].id != #[trigger] self.participants@[j].id
        &&& forall|i: int, j: int|
            0 <= i < j < self.attachments@.len() ==> #[trigger] self.attachments@[i].id != #[trigger] self.attachments@[j].id
        &&& forall|i: int, j: int|
            0 <= i < j < self.waiting@.len() ==> #[trigger] self.waiting@[i].id != #[trigger] self.waiting@[j].id
        &&& forall|i: int, j: int|
            0 <= i < j < self.messages@.len() ==> #[trigger] self.messages@[i].id != #[trigger] self.messages@[j].id
        &&& forall|i: int, j: int|
            0 <= i < j < self.waiting@.len() ==> !(#[trigger] self.waiting@[i].user_id == #[trigger] self.waiting@[j].user_id
                && self.waiting@[i].group_id == self.waiting@[j].group_id)
        &&& forall|i: int, j: int|
            0 <= i < j < self.participants@.len() ==> !(#[trigger] self.participants@[i].user_id
                == #[trigger] self.participants@[j].user_id
                && self.participants@[i].group_id == self.participants@[j].group_id)
        &&& forall|i: int|
            0 <= i < self.groups@.len() ==> within_capacity(
                #[trigger] self.groups@[i],
                member_count(self.participants@, self.groups@[i].id),
            )
    }

    pub open spec fn has_user(&self, uid: i32) -> bool {
        exists|i: int| 0 <= i < self.users@.len() && #[trigger] self.users@[i].id == uid
    }

    pub open spec fn has_group(&self, gid: i32) -> bool {
        exists|i: int| 0 <= i < self.groups@.len() && #[trigger] self.groups@[i].id == gid
    }

    /// The group with identifier `gid`.
    pub open spec fn group(&self, gid: i32) -> Group
        recommends
            self.has_group(gid),
    {
        self.groups@[choose|i: int| 0 <= i < self.groups@.len() && #[trigger] self.groups@[i].id == gid]
    }

    pub open spec fn has_entry(&self, id: i32) -> bool {
        exists|i: int| 0 <= i < self.waiting@.len() && #[trigger] self.waiting@[i].id == id
    }

    /// The position of the admission request with identifier `id`.
    pub open spec fn entry_index(&self, id: i32) -> int
        recommends
            self.has_entry(id),
    {
        choose|i: int| 0 <= i < self.waiting@.len() && #[trigger] self.waiting@[i].id == id
    }

    pub open spec fn has_message(&self, id: i32) -> bool {
        exists|i: int| 0 <= i < self.messages@.len() && #[trigger] self.messages@[i].id == id
    }

    /// The position of the message with identifier `id`.
    pub open spec fn message_index(&self, id: i32) -> int
        recommends
            self.has_message(id),
    {
        choose|i: int| 0 <= i < self.messages@.len() && #[trigger] self.messages@[i].id == id
    }

    /// Whether a user with this code is registered.
    pub open spec fn has_user_code(&self, code: Seq<char>) -> bool {
        exists|i: int| 0 <= i < self.users@.len() && #[trigger] self.users@[i].user_code@ == code
    }

    /// Whether the counter can hand out `n` more identifiers.
    pub open spec fn ids_left(&self, n: int) -> bool {
        self.next_id as int + n <= i32::MAX as int
    }

    pub fn new() -> (r: Store)
        ensures
            r.wf(),
            r.next_id == 1,
            r.users@.len() == 0,
            r.groups@.len() == 0,
            r.waiting@.len() == 0,
            r.participants@.len() == 0,
            r.messages@.len() == 0,
            r.attachments@.len() == 0,
    {
        Store {
            users: Vec::new(),
            groups: Vec::new(),
            waiting: Vec::new(),
            participants: Vec::new(),
            messages: Vec::new(),
            attachments: Vec::new(),
            next_id: 1,
        }
    }
    proof fn lemma_group_at(&self, i: int)
        requires
            self.wf(),
            0 <= i < self.groups@.len(),
        ensures
            self.has_group(self.groups@[i].id),
            self.group(self.groups@[i].id) == self.groups@[i],
    {
        let gid = self.groups@[i].id;
        assert(self.has_group(gid));
        let j = choose|j: int| 0 <= j < self.groups@.len() && #[trigger] self.groups@[j].id == gid;
        if i < j {
            assert(self.groups@[i].id != self.groups@[j].id);
        } else if j < i {
            assert(self.groups@[j].id != self.groups@[i].id);
        }
    }

    proof fn lemma_entry_at(&self, i: int)
        requires
            self.wf(),
            0 <= i < self.waiting@.len(),
        ensures
            self.has_entry(self.waiting@[i].id),
            self.entry_index(self.waiting@[i].id) == i,
    {
        let id = self.waiting@[i].id;
        assert(self.has_entry(id));
        let j = self.entry_index(id);
        if i < j {
            assert(self.waiting@[i].id != self.waiting@[j].id);
        } else if j < i {
            assert(self.waiting@[j].id != self.waiting@[i].id);
        }
    }

    pub(crate) proof fn lemma_message_at(&self, i: int)
        requires
            self.wf(),
            0 <= i < self.messages@.len(),
        ensures
            self.has_message(self.messages@[i].id),
            self.message_index(self.messages@[i].id) == i,
    {
        let id = self.messages@[i].id;
        assert(self.has_message(id));
        let j = self.message_index(id);
        if i < j {
            assert(self.messages@[i].id != self.messages@[j].id);
        } else if j < i {
            assert(self.messages@[j].id != self.messages@[i].id);
        }
    }

    fn find_group(&self, gid: i32) -> (r: Option<usize>)
        requires
            self.wf(),
        ensures
            r is None <==> !self.has_group(gid),
            r matches Some(i) ==> i < self.groups@.len() && self.groups@[i as int] == self.group(gid)
                && self.groups@[i as int].id == gid,
    {
        let mut i: usize = 0;
        while i < self.groups.len()
            invariant
                self.wf(),
                i <= self.groups@.len(),
                forall|k: int| 0 <= k < i ==> #[trigger] self.groups@[k].id != gid,
            decreases self.groups@.len() - i,
        {
            if self.groups[i].id == gid {
                proof {
                    self.lemma_group_at(i as int);
                }
                return Some(i);
            }
            i = i + 1;
        }
        None
    }

    fn find_entry(&self, id: i32) -> (r: Option<usize>)
        requires
            self.wf(),
        ensures
            r is None <==> !self.has_entry(id),
            r matches Some(i) ==> i as int == self.entry_index(id) && i < self.waiting@.len()
                && self.waiting@[i as int].id == id,
    {
        let mut i: usize = 0;
        while i < self.waiting.len()
            invariant
                self.wf(),
                i <= self.waiting@.len(),
                forall|k: int| 0 <= k < i ==> #[trigger] self.waiting@[k].id != id,
            decreases self.waiting@.len() - i,
        {
            if self.waiting[i].id == id {
                proof {
                    self.lemma_entry_at(i as int);
                }
                return Some(i);
            }
            i = i + 1;
        }
        None
    }

    pub(crate) fn find_message(&self, id: i32) -> (r: Option<usize>)
        requires
            self.wf(),
        ensures
            r is None <==> !self.has_message(id),
            r matches Some(i) ==> i as int == self.message_index(id) && i < self.messages@.len()
                && self.messages@[i as int].id == id,
    {
        let mut i: usize = 0;
        while i < self.messages.len()
            invariant
                self.wf(),
                i <= self.messages@.len(),
                forall|k: int| 0 <= k < i ==> #[trigger] self.messages@[k].id != id,
            decreases self.messages@.len() - i,
        {
            if self.messages[i].id == id {
                proof {
                    self.lemma_message_at(i as int);
                }
                return Some(i);
            }
            i = i + 1;
        }
        None
    }

    /// Whether a user with identifier `uid` is registered.
    pub fn user_exists(&self, uid: i32) -> (r: bool)
        ensures
            r == self.has_user(uid),
    {
        let mut i: usize = 0;
        while i < self.users.len()
            invariant
                i <= self.users@.len(),
                forall|k: int| 0 <= k < i ==> #[trigger] self.users@[k].id != uid,
            decreases self.users@.len() - i,
        {
            if self.users[i].id == uid {
                return true;
            }
            i = i + 1;
        }
        false
    }

    /// The identifier of the user registered under `code`, if any.
    pub fn user_id_by_code(&self, code: &String) -> (r: Option<i32>)
        ensures
            r is None <==> !self.has_user_code(code@),
            r matches Some(uid) ==> exists|i: int|
                0 <= i < self.users@.len() && #[trigger] self.users@[i].user_code@ == code@
                    && self.users@[i].id == uid,
    {
        let mut i: usize = 0;
        while i < self.users.len()
            invariant
                i <= self.users@.len(),
                forall|k: int| 0 <= k < i ==> #[trigger] self.users@[k].user_code@ != code@,
            decreases self.users@.len() - i,
        {
            if self.users[i].user_code == *code {
                return Some(self.users[i].id);
            }
            i = i + 1;
        }
        None
    }

    /// Whether `uid` is a participant of group `gid`.
    pub fn is_participant(&self, uid: i32, gid: i32) -> (r: bool)
        ensures
            r == is_member(self.participants@, uid, gid),
    {
        let mut i: usize = 0;
        while i < self.participants.len()
            invariant
                i <= self.participants@.len(),
                forall|k: int| 0 <= k < i ==> !(#[trigger] self.participants@[k].user_id == uid
                    && self.participants@[k].group_id == gid),
            decreases self.participants@.len() - i,
        {
            if self.participants[i].user_id == uid && self.participants[i].group_id == gid {
                return true;
            }
            i = i + 1;
        }
        false
    }

    /// Whether `uid` has a pending request to join group `gid`.
    pub fn is_requested(&self, uid: i32, gid: i32) -> (r: bool)
        ensures
            r == has_request(self.waiting@, uid, gid),
    {
        let mut i: usize = 0;
        while i < self.waiting.len()
            invariant
                i <= self.waiting@.len(),
                forall|k: int| 0 <= k < i ==> !(#[trigger] self.waiting@[k].user_id == uid
                    && self.waiting@[k].group_id == gid),
            decreases self.waiting@.len() - i,
        {
            if self.waiting[i].user_id == uid && self.waiting[i].group_id == gid {
                return true;
            }
            i = i + 1;
        }
        false
    }

    /// Number of participants of group `gid`.
    pub fn count_members(&self, gid: i32) -> (r: usize)
        ensures
            r == member_count(self.participants@, gid),
    {
        let mut n: usize = 0;
        let mut i: usize = 0;
        while i < self.participants.len()
            invariant
                i <= self.participants@.len(),
                n == member_count(self.participants@.subrange(0, i as int), gid),
                n <= i,
            decreases self.participants@.len() - i,
        {
            proof {
                let ps = self.participants@;
                assert(ps.subrange(0, i as int + 1) =~= ps.subrange(0, i as int).push(ps[i as int]));
                lemma_member_count_push(ps.subrange(0, i as int), ps[i as int], gid);
            }
            if self.participants[i].group_id == gid {
                n = n + 1;
            }
            i = i + 1;
        }
        proof {
            assert(self.participants@.subrange(0, i as int) =~= self.participants@);
        }
        n
    }

    /// Whether group `g` can admit one more member.
    fn room_in(&self, g: &Group) -> (r: bool)
        ensures
            r == has_room(*g, member_count(self.participants@, g.id)),
    {
        let n = self.count_members(g.id);
        match g.maximum_members {
            Some(m) => m >= 0 && n < m as usize,
            None => true,
        }
    }
    /// How a join request of `uid` into `gid` at `now` is decided: `Ok(true)` when
    /// it becomes a pending request, `Ok(false)` when it becomes a membership.
    pub open spec fn join_decision(&self, uid: i32, gid: i32, now: Timestamp) -> Result<bool, StoreError> {
        let g = self.group(gid);
        if !self.has_user(uid) || !self.has_group(gid) {
            Err(StoreError::NotFound)
        } else if is_expired(g, now) {
            Err(StoreError::GroupExpired)
        } else if is_member(self.participants@, uid, gid) {
            Err(StoreError::AlreadyMember)
        } else if approval_required(g) {
            if has_request(self.waiting@, uid, gid) {
                Err(StoreError::AlreadyRequested)
            } else if !self.ids_left(1) {
                Err(StoreError::Other)
            } else {
                Ok(true)
            }
        } else if !has_room(g, member_count(self.participants@, gid)) {
            Err(StoreError::GroupFull)
        } else if !self.ids_left(1) {
            Err(StoreError::Other)
        } else {
            Ok(false)
        }
    }

    /// Asks for `uid` to join `gid`. An open group admits the user at once while
    /// it has room; a group that asks for approval records a pending request.
    pub fn request_join(&mut self, uid: i32, gid: i32, message: Option<String>, now: Timestamp) -> (r: Result<JoinOutcome, StoreError>)
        requires
            old(self).wf(),
        ensures
            final(self).wf(),
            match old(self).join_decision(uid, gid, now) {
                Err(e) => r == Err::<JoinOutcome, StoreError>(e) && *final(self) == *old(self),
                Ok(true) => {
                    let w = (WaitingList {
                        id: old(self).next_id,
                        user_id: uid,
                        group_id: gid,
                        message: message,
                        created_at: now,
                    });
                    &&& r == Ok::<JoinOutcome, StoreError>(JoinOutcome::Waiting(w))
                    &&& final(self).waiting@ == old(self).waiting@.push(w)
                    &&& final(self).participants@ == old(self).participants@
                    &&& same_but_membership(final(self), old(self))
                    &&& final(self).next_id == old(self).next_id + 1
                },
                Ok(false) => {
                    let p = (Participant { id: old(self).next_id, user_id: uid, group_id: gid });
                    &&& r == Ok::<JoinOutcome, StoreError>(JoinOutcome::Joined(p))
                    &&& final(self).participants@ == old(self).participants@.push(p)
                    &&& final(self).waiting@ == old(self).waiting@
                    &&& same_but_membership(final(self), old(self))
                    &&& final(self).next_id == old(self).next_id + 1
                },
            },
    {
        let gi = match self.find_group(gid) {
            Some(i) => i,
            None => {
                return Err(StoreError::NotFound);
            },
        };
        if !self.user_exists(uid) {
            return Err(StoreError::NotFound);
        }
        let expired = match self.groups[gi].expired_at {
            Some(e) => now.is_after(&e),
            None => false,
        };
        if expired {
            return Err(StoreError::GroupExpired);
        }
        if self.is_participant(uid, gid) {
            return Err(StoreError::AlreadyMember);
        }
        let approval = match self.groups[gi].approval_require {
            Some(b) => b,
            None => false,
        };
        if approval {
            if self.is_requested(uid, gid) {
                return Err(StoreError::AlreadyRequested);
            }
            if self.next_id == i32::MAX {
                return Err(StoreError::Other);
            }
            let w = WaitingList {
                id: self.next_id,
                user_id: uid,
                group_id: gid,
                message: clone_text(&message),
                created_at: now,
            };
            self.waiting.push(WaitingList { id: self.next_id, user_id: uid, group_id: gid, message, created_at: now });
            self.next_id = self.next_id + 1;
            proof {
                let ws = self.waiting@;
                let n = ws.len() - 1;
                assert forall|i: int, j: int| 0 <= i < j < ws.len() implies !(#[trigger] ws[i].user_id == #[trigger] ws[j].user_id
                    && ws[i].group_id == ws[j].group_id) by {
                    if j == n {
                        assert(ws[i] == old(self).waiting@[i]);
                    } else {
                        assert(ws[i] == old(self).waiting@[i] && ws[j] == old(self).waiting@[j]);
                    }
                }
            }
            Ok(JoinOutcome::Waiting(w))
        } else {
            if !self.room_in(&self.groups[gi]) {
                return Err(StoreError::GroupFull);
            }
            if self.next_id == i32::MAX {
                return Err(StoreError::Other);
            }
            let p = Participant { id: self.next_id, user_id: uid, group_id: gid };
            proof {
                old(self).lemma_group_at(gi as int);
            }
            self.add_participant(p);
            Ok(JoinOutcome::Joined(p))
        }
    }

    /// Appends participant `p` and advances the identifier counter.
    fn add_participant(&mut self, p: Participant)
        requires
            old(self).wf(),
            p.id == old(self).next_id,
            old(self).ids_left(1),
            old(self).has_group(p.group_id),
            !is_member(old(self).participants@, p.user_id, p.group_id),
            has_room(old(self).group(p.group_id), member_count(old(self).participants@, p.group_id)),
        ensures
            final(self).wf(),
            final(self).participants@ == old(self).participants@.push(p),
            final(self).waiting@ == old(self).waiting@,
            same_but_membership(final(self), old(self)),
            final(self).next_id == old(self).next_id + 1,
    {
        self.participants.push(p);
        self.next_id = self.next_id + 1;
        proof {
            let ps = self.participants@;
            let ops = old(self).participants@;
            let n = ops.len() as int;
            assert forall|i: int, j: int| 0 <= i < j < ps.len() implies !(#[trigger] ps[i].user_id == #[trigger] ps[j].user_id
                && ps[i].group_id == ps[j].group_id) by {
                assert(ps[i] == ops[i]);
                if j < n {
                    assert(ps[j] == ops[j]);
                }
            }
            assert forall|i: int| #![trigger ps[i]] 0 <= i < ps.len() implies {
                &&& ps[i].id < self.next_id
                &&& ps[i].group_id < self.next_id
            } by {
                if i < n {
                    assert(ps[i] == ops[i]);
                } else {
                    let k = choose|k: int| 0 <= k < old(self).groups@.len() && #[trigger] old(self).groups@[k].id == p.group_id;
                    assert(old(self).groups@[k].id < old(self).next_id);
                }
            }
            assert forall|i: int| 0 <= i < self.groups@.len() implies within_capacity(
                #[trigger] self.groups@[i],
                member_count(ps, self.groups@[i].id),
            ) by {
                lemma_member_count_push(ops, p, self.groups@[i].id);
                if self.groups@[i].id == p.group_id {
                    old(self).lemma_group_at(i);
                }
            }
        }
    }
    /// How approving the request `id` at `now` is decided.
    pub open spec fn approve_decision(&self, id: i32, now: Timestamp) -> Result<(), StoreError> {
        let e = self.waiting@[self.entry_index(id)];
        let g = self.group(e.group_id);
        if !self.has_entry(id) || !self.has_group(e.group_id) {
            Err(StoreError::NotFound)
        } else if is_expired(g, now) {
            Err(StoreError::GroupExpired)
        } else if is_member(self.participants@, e.user_id, e.group_id) {
            Err(StoreError::AlreadyMember)
        } else if !has_room(g, member_count(self.participants@, e.group_id)) {
            Err(StoreError::GroupFull)
        } else if !self.ids_left(1) {
            Err(StoreError::Other)
        } else {
            Ok(())
        }
    }

    /// Admits the user of the pending request `id` into its group: the request
    /// is removed and one participant added, in one step. Capacity and expiry
    /// are checked at this moment.
    pub fn approve(&mut self, id: i32, now: Timestamp) -> (r: Result<Participant, StoreError>)
        requires
            old(self).wf(),
        ensures
            final(self).wf(),
            match old(self).approve_decision(id, now) {
                Err(e) => r == Err::<Participant, StoreError>(e) && *final(self) == *old(self),
                Ok(_) => {
                    let i = old(self).entry_index(id);
                    let e = old(self).waiting@[i];
                    let p = (Participant { id: old(self).next_id, user_id: e.user_id, group_id: e.group_id });
                    &&& r == Ok::<Participant, StoreError>(p)
                    &&& final(self).participants@ == old(self).participants@.push(p)
                    &&& final(self).waiting@ == old(self).waiting@.remove(i)
                    &&& !final(self).has_entry(id)
                    &&& same_but_membership(final(self), old(self))
                    &&& final(self).next_id == old(self).next_id + 1
                },
            },
    {
        let i = match self.find_entry(id) {
            Some(i) => i,
            None => {
                return Err(StoreError::NotFound);
            },
        };
        let uid = self.waiting[i].user_id;
        let gid = self.waiting[i].group_id;
        let gi = match self.find_group(gid) {
            Some(k) => k,
            None => {
                return Err(StoreError::NotFound);
            },
        };
        let expired = match self.groups[gi].expired_at {
            Some(e) => now.is_after(&e),
            None => false,
        };
        if expired {
            return Err(StoreError::GroupExpired);
        }
        if self.is_participant(uid, gid) {
            return Err(StoreError::AlreadyMember);
        }
        if !self.room_in(&self.groups[gi]) {
            return Err(StoreError::GroupFull);
        }
        if self.next_id == i32::MAX {
            return Err(StoreError::Other);
        }
        let p = Participant { id: self.next_id, user_id: uid, group_id: gid };
        self.add_participant(p);
        self.remove_entry(i);
        Ok(p)
    }

    /// Drops the pending request `id`; nothing happens when it is already gone.
    pub fn reject(&mut self, id: i32)
        requires
            old(self).wf(),
        ensures
            final(self).wf(),
            old(self).has_entry(id) ==> final(self).waiting@ == old(self).waiting@.remove(old(self).entry_index(id)),
            !old(self).has_entry(id) ==> final(self).waiting@ == old(self).waiting@,
            !final(self).has_entry(id),
            final(self).participants@ == old(self).participants@,
            same_but_membership(final(self), old(self)),
            final(self).next_id == old(self).next_id,
    {
        match self.find_entry(id) {
            Some(i) => self.remove_entry(i),
            None => {},
        }
    }

    fn remove_entry(&mut self, i: usize)
        requires
            old(self).wf(),
            i < old(self).waiting@.len(),
        ensures
            final(self).wf(),
            final(self).waiting@ == old(self).waiting@.remove(i as int),
            !final(self).has_entry(old(self).waiting@[i as int].id),
            final(self).participants@ == old(self).participants@,
            same_but_membership(final(self), old(self)),
            final(self).next_id == old(self).next_id,
    {
        let ghost ows = self.waiting@;
        self.waiting.remove(i);
        proof {
            let ws = self.waiting@;
            let ii = i as int;
            assert forall|k: int| 0 <= k < ws.len() implies #[trigger] ws[k] == ows[if k < ii { k } else { k + 1 }] by {}
            assert forall|a: int, b: int| 0 <= a < b < ws.len() implies #[trigger] ws[a].id != #[trigger] ws[b].id by {
                assert(ws[a] == ows[if a < ii { a } else { a + 1 }]);
                assert(ws[b] == ows[if b < ii { b } else { b + 1 }]);
            }
            assert forall|a: int, b: int| 0 <= a < b < ws.len() implies !(#[trigger] ws[a].user_id == #[trigger] ws[b].user_id
                && ws[a].group_id == ws[b].group_id) by {
                assert(ws[a] == ows[if a < ii { a } else { a + 1 }]);
                assert(ws[b] == ows[if b < ii { b } else { b + 1 }]);
            }
            assert forall|k: int| 0 <= k < ws.len() implies #[trigger] ws[k].id < self.next_id by {
                assert(ws[k] == ows[if k < ii { k } else { k + 1 }]);
            }
            if self.has_entry(ows[ii].id) {
                let k = choose|k: int| 0 <= k < ws.len() && #[trigger] ws[k].id == ows[ii].id;
                let kk = if k < ii { k } else { k + 1 };
                assert(ws[k] == ows[kk]);
                if kk < ii {
                    assert(ows[kk].id != ows[ii].id);
                } else {
                    assert(ows[ii].id != ows[kk].id);
                }
            }
        }
    }

    /// Registers a user; the user code must not be taken.
    pub fn create_user(&mut self, new: NewUser) -> (r: Result<User, StoreError>)
        requires
            old(self).wf(),
        ensures
            final(self).wf(),
            old(self).has_user_code(new.user_code@) ==> r == Err::<User, StoreError>(StoreError::DuplicateKey)
                && *final(self) == *old(self),
            !old(self).has_user_code(new.user_code@) && !old(self).ids_left(1) ==> r == Err::<User, StoreError>(StoreError::Other)
                && *final(self) == *old(self),
            !old(self).has_user_code(new.user_code@) && old(self).ids_left(1) ==> {
                let u = (User {
                    id: old(self).next_id,
                    username: new.username,
                    user_code: new.user_code,
                    created_at: new.created_at,
                });
                &&& r == Ok::<User, StoreError>(u)
                &&& final(self).users@ == old(self).users@.push(u)
                &&& final(self).groups@ == old(self).groups@
                &&& final(self).waiting@ == old(self).waiting@
                &&& final(self).participants@ == old(self).participants@
                &&& final(self).messages@ == old(self).messages@
                &&& final(self).attachments@ == old(self).attachments@
                &&& final(self).next_id == old(self).next_id + 1
            },
    {
        if self.user_id_by_code(&new.user_code).is_some() {
            return Err(StoreError::DuplicateKey);
        }
        if self.next_id == i32::MAX {
            return Err(StoreError::Other);
        }
        let u = User {
            id: self.next_id,
            username: new.username.clone(),
            user_code: new.user_code.clone(),
            created_at: new.created_at,
        };
        self.users.push(User {
            id: self.next_id,
            username: new.username,
            user_code: new.user_code,
            created_at: new.created_at,
        });
        self.next_id = self.next_id + 1;
        proof {
            assert forall|k: int| 0 <= k < self.users@.len() implies #[trigger] self.users@[k].id < self.next_id by {
                if k < old(self).users@.len() {
                    assert(self.users@[k] == old(self).users@[k]);
                }
            }
        }
        Ok(u)
    }

    /// Creates a group owned by an existing user. An absent approval flag means
    /// open join, an absent maximum means no bound.
    pub fn create_group(&mut self, new: NewGroup) -> (r: Result<Group, StoreError>)
        requires
            old(self).wf(),
        ensures
            final(self).wf(),
            !old(self).has_user(new.user_id) ==> r == Err::<Group, StoreError>(StoreError::NotFound)
                && *final(self) == *old(self),
            old(self).has_user(new.user_id) && !old(self).ids_left(1) ==> r == Err::<Group, StoreError>(StoreError::Other)
                && *final(self) == *old(self),
            old(self).has_user(new.user_id) && old(self).ids_left(1) ==> {
                let g = (Group {
                    id: old(self).next_id,
                    name: new.name,
                    group_code: new.group_code,
                    user_id: new.user_id,
                    approval_require: new.approval_require,
                    maximum_members: new.maximum_members,
                    created_at: Some(new.created_at),
                    expired_at: new.expired_at,
                });
                &&& r == Ok::<Group, StoreError>(g)
                &&& final(self).groups@ == old(self).groups@.push(g)
                &&& final(self).users@ == old(self).users@
                &&& final(self).waiting@ == old(self).waiting@
                &&& final(self).participants@ == old(self).participants@
                &&& final(self).messages@ == old(self).messages@
                &&& final(self).attachments@ == old(self).attachments@
                &&& final(self).next_id == old(self).next_id + 1
            },
    {
        if !self.user_exists(new.user_id) {
            return Err(StoreError::NotFound);
        }
        if self.next_id == i32::MAX {
            return Err(StoreError::Other);
        }
        let g = Group {
            id: self.next_id,
            name: new.name.clone(),
            group_code: new.group_code.clone(),
            user_id: new.user_id,
            approval_require: new.approval_require,
            maximum_members: new.maximum_members,
            created_at: Some(new.created_at),
            expired_at: new.expired_at,
        };
        self.groups.push(Group {
            id: self.next_id,
            name: new.name,
            group_code: new.group_code,
            user_id: new.user_id,
            approval_require: new.approval_require,
            maximum_members: new.maximum_members,
            created_at: Some(new.created_at),
            expired_at: new.expired_at,
        });
        self.next_id = self.next_id + 1;
        proof {
            let gs = self.groups@;
            let ogs = old(self).groups@;
            let n = ogs.len() as int;
            lemma_member_count_absent(self.participants@, old(self).next_id);
            assert forall|k: int| 0 <= k < gs.len() implies #[trigger] gs[k].id < self.next_id by {
                if k < n {
                    assert(gs[k] == ogs[k]);
                }
            }
            assert forall|a: int, b: int| 0 <= a < b < gs.len() implies #[trigger] gs[a].id != #[trigger] gs[b].id by {
                assert(gs[a] == ogs[a]);
                if b < n {
                    assert(gs[b] == ogs[b]);
                }
            }
            assert forall|k: int| 0 <= k < gs.len() implies within_capacity(
                #[trigger] gs[k],
                member_count(self.participants@, gs[k].id),
            ) by {
                if k < n {
                    assert(gs[k] == ogs[k]);
                }
            }
        }
        Ok(g)
    }
    /// How storing `new` with `n` attachments is decided.
    pub open spec fn insert_decision(&self, new: NewMessage, n: nat) -> Result<(), StoreError> {
        let g = self.group(new.group_id);
        if !self.has_group(new.group_id) {
            Err(StoreError::NotFound)
        } else if is_expired(g, new.created_at) {
            Err(StoreError::GroupExpired)
        } else if !is_member(self.participants@, new.user_id, new.group_id) {
            Err(StoreError::NotAParticipant)
        } else if !valid_content(new.content, new.message_type, n) {
            Err(StoreError::InvalidContent)
        } else if !self.ids_left(1 + n as int) {
            Err(StoreError::Other)
        } else {
            Ok(())
        }
    }

    /// Stores a message together with its attachments, all or nothing. The
    /// author must be a participant of the group at `new.created_at`.
    pub fn insert_message(&mut self, new: NewMessage, attachments: Vec<(String, AttachmentTypeEnum)>) -> (r: Result<Message, StoreError>)
        requires
            old(self).wf(),
        ensures
            final(self).wf(),
            match old(self).insert_decision(new, attachments@.len()) {
                Err(e) => r == Err::<Message, StoreError>(e) && *final(self) == *old(self),
                Ok(_) => {
                    let m = (Message {
                        id: old(self).next_id,
                        message_uuid: new.message_uuid,
                        content: new.content,
                        message_type: new.message_type,
                        created_at: new.created_at,
                        user_id: new.user_id,
                        group_id: new.group_id,
                    });
                    &&& r == Ok::<Message, StoreError>(m)
                    &&& final(self).messages@ == old(self).messages@.push(m)
                    &&& final(self).attachments@ == old(self).attachments@ + attachment_rows(attachments@, m.id)
                    &&& final(self).users@ == old(self).users@
                    &&& final(self).groups@ == old(self).groups@
                    &&& final(self).waiting@ == old(self).waiting@
                    &&& final(self).participants@ == old(self).participants@
                    &&& final(self).next_id == old(self).next_id + 1 + attachments@.len()
                },
            },
    {
        let gi = match self.find_group(new.group_id) {
            Some(k) => k,
            None => {
                return Err(StoreError::NotFound);
            },
        };
        let expired = match self.groups[gi].expired_at {
            Some(e) => new.created_at.is_after(&e),
            None => false,
        };
        if expired {
            return Err(StoreError::GroupExpired);
        }
        if !self.is_participant(new.user_id, new.group_id) {
            return Err(StoreError::NotAParticipant);
        }
        let valid = match new.message_type {
            MessageTypeEnum::TEXT => match &new.content {
                Some(c) => c.as_str().unicode_len() > 0,
                None => false,
            },
            MessageTypeEnum::ATTACHMENT => attachments.len() > 0,
        };
        if !valid {
            return Err(StoreError::InvalidContent);
        }
        let room = (i32::MAX - self.next_id) as usize;
        if attachments.len() >= room {
            return Err(StoreError::Other);
        }
        let mid = self.next_id;
        let m = Message {
            id: mid,
            message_uuid: new.message_uuid,
            content: clone_text(&new.content),
            message_type: new.message_type,
            created_at: new.created_at,
            user_id: new.user_id,
            group_id: new.group_id,
        };
        self.messages.push(Message {
            id: mid,
            message_uuid: new.message_uuid,
            content: new.content,
            message_type: new.message_type,
            created_at: new.created_at,
            user_id: new.user_id,
            group_id: new.group_id,
        });
        let ghost ms_after = self.messages@;
        let ghost rows = attachment_rows(attachments@, mid);
        let ghost olds = old(self).attachments@;
        let mut k: usize = 0;
        while k < attachments.len()
            invariant
                k <= attachments@.len(),
                mid as int + 1 + attachments@.len() <= i32::MAX as int,
                rows == attachment_rows(attachments@, mid),
                self.attachments@ == olds + rows.take(k as int),
                0 <= mid,
                mid == old(self).next_id,
                self.next_id == mid,
                self.messages@ == ms_after,
                ms_after == old(self).messages@.push(m),
                self.users@ == old(self).users@,
                self.groups@ == old(self).groups@,
                self.waiting@ == old(self).waiting@,
                self.participants@ == old(self).participants@,
            decreases attachments@.len() - k,
        {
            let a = Attachment {
                id: mid + 1 + k as i32,
                url: attachments[k].0.clone(),
                attachment_type: attachments[k].1,
                message_id: mid,
            };
            self.attachments.push(a);
            proof {
                assert(rows.take(k as int + 1) =~= rows.take(k as int).push(rows[k as int]));
                assert(olds + rows.take(k as int + 1) =~= (olds + rows.take(k as int)).push(rows[k as int]));
            }
            k = k + 1;
        }
        self.next_id = mid + 1 + attachments.len() as i32;
        proof {
            assert(rows.take(k as int) =~= rows);
            let ms = self.messages@;
            let oms = old(self).messages@;
            let n = oms.len() as int;
            assert forall|a: int| 0 <= a < ms.len() implies #[trigger] ms[a].id < self.next_id by {
                if a < n {
                    assert(ms[a] == oms[a]);
                }
            }
            assert forall|a: int, b: int| 0 <= a < b < ms.len() implies #[trigger] ms[a].id != #[trigger] ms[b].id by {
                assert(ms[a] == oms[a]);
                if b < n {
                    assert(ms[b] == oms[b]);
                }
            }
            let ats = self.attachments@;
            assert forall|a: int| 0 <= a < ats.len() implies #[trigger] ats[a].id < self.next_id by {
                if a < olds.len() {
                    assert(ats[a] == olds[a]);
                } else {
                    assert(ats[a] == rows[a - olds.len()]);
                }
            }
        }
        Ok(m)
    }

    /// Removes the listed messages and, with them, their attachments.
    pub fn delete_messages(&mut self, ids: &Vec<i32>)
        requires
            old(self).wf(),
        ensures
            final(self).wf(),
            final(self).messages@ == old(self).messages@.filter(message_survives(ids@)),
            final(self).attachments@ == old(self).attachments@.filter(attachment_survives(ids@)),
            final(self).users@ == old(self).users@,
            final(self).groups@ == old(self).groups@,
            final(self).waiting@ == old(self).waiting@,
            final(self).participants@ == old(self).participants@,
            final(self).next_id == old(self).next_id,
    {
        let ghost oms = self.messages@;
        let ghost keep_m = message_survives(ids@);
        let mut kept: Vec<Message> = Vec::new();
        let mut i: usize = 0;
        while i < self.messages.len()
            invariant
                self.wf(),
                self.messages@ == oms,
                keep_m == message_survives(ids@),
                i <= oms.len(),
                kept@ == oms.take(i as int).filter(keep_m),
                forall|a: int| 0 <= a < kept@.len() ==> exists|b: int| 0 <= b < i && #[trigger] kept@[a] == oms[b],
                forall|a: int, b: int| 0 <= a < b < kept@.len() ==> #[trigger] kept@[a].id != #[trigger] kept@[b].id,
            decreases oms.len() - i,
        {
            proof {
                assert(oms.take(i as int + 1) =~= oms.take(i as int).push(oms[i as int]));
                oms.take(i as int).lemma_filter_push(oms[i as int], keep_m);
            }
            if !contains_id(ids, self.messages[i].id) {
                let ghost before = kept@;
                kept.push(clone_message(&self.messages[i]));
                proof {
                    assert forall|a: int| 0 <= a < kept@.len() implies exists|b: int| 0 <= b < i + 1 && #[trigger] kept@[a] == oms[b] by {
                        if a < before.len() {
                            assert(kept@[a] == before[a]);
                        } else {
                            assert(kept@[a] == oms[i as int]);
                        }
                    }
                    assert forall|a: int, b: int| 0 <= a < b < kept@.len() implies #[trigger] kept@[a].id != #[trigger] kept@[b].id by {
                        assert(kept@[a] == before[a]);
                        if b < before.len() {
                            assert(kept@[b] == before[b]);
                        } else {
                            let c = choose|c: int| 0 <= c < i && #[trigger] before[a] == oms[c];
                            assert(oms[c].id != oms[i as int].id);
                        }
                    }
                }
            }
            i = i + 1;
        }
        let ghost oas = self.attachments@;
        let ghost keep_a = attachment_survives(ids@);
        let mut kept_a: Vec<Attachment> = Vec::new();
        let mut j: usize = 0;
        while j < self.attachments.len()
            invariant
                self.wf(),
                self.attachments@ == oas,
                keep_a == attachment_survives(ids@),
                j <= oas.len(),
                kept_a@ == oas.take(j as int).filter(keep_a),
                forall|a: int| 0 <= a < kept_a@.len() ==> #[trigger] kept_a@[a].id < self.next_id,
                forall|a: int| 0 <= a < kept_a@.len() ==> exists|b: int| 0 <= b < j && #[trigger] kept_a@[a] == oas[b],
                forall|a: int, b: int| 0 <= a < b < kept_a@.len() ==> #[trigger] kept_a@[a].id != #[trigger] kept_a@[b].id,
            decreases oas.len() - j,
        {
            proof {
                assert(oas.take(j as int + 1) =~= oas.take(j as int).push(oas[j as int]));
                oas.take(j as int).lemma_filter_push(oas[j as int], keep_a);
            }
            if !contains_id(ids, self.attachments[j].message_id) {
                let ghost before = kept_a@;
                kept_a.push(clone_attachment(&self.attachments[j]));
                proof {
                    assert forall|a: int| 0 <= a < kept_a@.len() implies #[trigger] kept_a@[a].id < self.next_id by {
                        if a < before.len() {
                            assert(kept_a@[a] == before[a]);
                        }
                    }
                    assert forall|a: int| 0 <= a < kept_a@.len() implies exists|b: int| 0 <= b < j + 1 && #[trigger] kept_a@[a] == oas[b] by {
                        if a < before.len() {
                            assert(kept_a@[a] == before[a]);
                        } else {
                            assert(kept_a@[a] == oas[j as int]);
                        }
                    }
                    assert forall|a: int, b: int| 0 <= a < b < kept_a@.len() implies #[trigger] kept_a@[a].id != #[trigger] kept_a@[b].id by {
                        assert(kept_a@[a] == before[a]);
                        if b < before.len() {
                            assert(kept_a@[b] == before[b]);
                        } else {
                            let c = choose|c: int| 0 <= c < j && #[trigger] before[a] == oas[c];
                            assert(oas[c].id != oas[j as int].id);
                        }
                    }
                }
            }
            j = j + 1;
        }
        proof {
            assert(oms.take(i as int) =~= oms);
            assert(oas.take(j as int) =~= oas);
            assert forall|a: int| 0 <= a < kept@.len() implies #[trigger] kept@[a].id < self.next_id by {
                let b = choose|b: int| 0 <= b < i && #[trigger] kept@[a] == oms[b];
            }
        }
        self.messages = kept;
        self.attachments = kept_a;
    }

    /// Replaces the content of message `id`.
    pub fn edit_message_content(&mut self, id: i32, new_content: String) -> (r: Result<(), StoreError>)
        requires
            old(self).wf(),
        ensures
            final(self).wf(),
            !old(self).has_message(id) ==> r == Err::<(), StoreError>(StoreError::NotFound) && *final(self) == *old(self),
            old(self).has_message(id) ==> {
                let i = old(self).message_index(id);
                let m = old(self).messages@[i];
                &&& r == Ok::<(), StoreError>(())
                &&& final(self).messages@ == old(self).messages@.update(i, (Message {
                    id: m.id,
                    message_uuid: m.message_uuid,
                    content: Some(new_content),
                    message_type: m.message_type,
                    created_at: m.created_at,
                    user_id: m.user_id,
                    group_id: m.group_id,
                }))
                &&& final(self).attachments@ == old(self).attachments@
                &&& final(self).users@ == old(self).users@
                &&& final(self).groups@ == old(self).groups@
                &&& final(self).waiting@ == old(self).waiting@
                &&& final(self).participants@ == old(self).participants@
                &&& final(self).next_id == old(self).next_id
            },
    {
        let i = match self.find_message(id) {
            Some(i) => i,
            None => {
                return Err(StoreError::NotFound);
            },
        };
        let m = Message {
            id: self.messages[i].id,
            message_uuid: self.messages[i].message_uuid,
            content: Some(new_content),
            message_type: self.messages[i].message_type,
            created_at: self.messages[i].created_at,
            user_id: self.messages[i].user_id,
            group_id: self.messages[i].group_id,
        };
        self.messages.set(i, m);
        proof {
            let ms = self.messages@;
            let oms = old(self).messages@;
            assert forall|a: int| 0 <= a < ms.len() implies #[trigger] ms[a].id < self.next_id by {
                assert(ms[a].id == oms[a].id);
            }
            assert forall|a: int, b: int| 0 <= a < b < ms.len() implies #[trigger] ms[a].id != #[trigger] ms[b].id by {
                assert(ms[a].id == oms[a].id);
                assert(ms[b].id == oms[b].id);
            }
        }
        Ok(())
    }
}

/// Every operation keeps a store well formed, and in a well-formed store a group
/// whose maximum is `n >= 0` never holds more than `n` participants.
pub proof fn lemma_capacity_respected(s: &Store, gid: i32, n: i32)
    requires
        s.wf(),
        s.has_group(gid),
        s.group(gid).maximum_members == Some(n),
        n >= 0,
    ensures
        member_count(s.participants@, gid) <= n,
{
    let i = choose|i: int| 0 <= i < s.groups@.len() && #[trigger] s.groups@[i].id == gid;
    assert(within_capacity(s.groups@[i], member_count(s.participants@, s.groups@[i].id)));
}

/// A join request into an open, unexpired group with room yields a membership,
/// never a pending request.
pub proof fn lemma_open_group_admits(s: &Store, uid: i32, gid: i32, now: Timestamp)
    requires
        s.has_user(uid),
        s.has_group(gid),
        !approval_required(s.group(gid)),
        !is_expired(s.group(gid), now),
        !is_member(s.participants@, uid, gid),
        has_room(s.group(gid), member_count(s.participants@, gid)),
        s.ids_left(1),
    ensures
        s.join_decision(uid, gid, now) == Ok::<bool, StoreError>(false),
{
}

/// Once a request is gone (approved or rejected), approving it again is refused.
pub proof fn lemma_approve_needs_entry(s: &Store, id: i32, now: Timestamp)
    requires
        !s.has_entry(id),
    ensures
        s.approve_decision(id, now) == Err::<(), StoreError>(StoreError::NotFound),
{
}

/// A message of kind `ATTACHMENT` without attachments is never stored; where the
/// author may post, the refusal is `InvalidContent`.
pub proof fn lemma_attachment_message_needs_attachments(s: &Store, new: NewMessage)
    requires
        new.message_type == MessageTypeEnum::ATTACHMENT,
    ensures
        s.insert_decision(new, 0) is Err,
        s.has_group(new.group_id) && !is_expired(s.group(new.group_id), new.created_at)
            && is_member(s.participants@, new.user_id, new.group_id)
            ==> s.insert_decision(new, 0) == Err::<(), StoreError>(StoreError::InvalidContent),
{
}

/// A participant of an existing group may post there: a message with valid
/// content, written before the group expires, is stored while identifiers remain.
pub proof fn lemma_participant_may_post(s: &Store, new: NewMessage, n: nat)
    requires
        s.has_group(new.group_id),
        !is_expired(s.group(new.group_id), new.created_at),
        is_member(s.participants@, new.user_id, new.group_id),
        valid_content(new.content, new.message_type, n),
        s.ids_left(1 + n as int),
    ensures
        s.insert_decision(new, n) == Ok::<(), StoreError>(()),
{
}

/// The participant that an open join or an approval has just added (the last
/// one) passes the membership check of a message written by that user in
/// that group; with valid content, before expiry and with identifiers left,
/// the message is stored.
pub proof fn lemma_new_member_may_post(s: &Store, p: Participant, new: NewMessage, n: nat)
    requires
        s.participants@.len() > 0,
        s.participants@.last() == p,
        new.user_id == p.user_id,
        new.group_id == p.group_id,
    ensures
        is_member(s.participants@, new.user_id, new.group_id),
        s.has_group(new.group_id) && !is_expired(s.group(new.group_id), new.created_at)
            && valid_content(new.content, new.message_type, n) && s.ids_left(1 + n as int)
            ==> s.insert_decision(new, n) == Ok::<(), StoreError>(()),
{
    let k = s.participants@.len() - 1;
    assert(s.participants@[k] == p);
}

} // verus!
