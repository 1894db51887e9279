use group_chat::models::{AttachmentTypeEnum, MessageTypeEnum, NewGroup, NewMessage, NewUser, StoreError};
use group_chat::store::{JoinOutcome, Store};
use group_chat::time::Timestamp;

fn at(micros: i64) -> Timestamp {
    Timestamp::from_micros(micros)
}

fn user(store: &mut Store, code: &str) -> i32 {
    store
        .create_user(NewUser { username: format!("name-{}", code), user_code: code.to_string(), created_at: at(0) })
        .unwrap()
        .id
}

fn group(store: &mut Store, owner: i32, approval: Option<bool>, max: Option<i32>, expiry: Option<Timestamp>) -> i32 {
    store
        .create_group(NewGroup {
            name: "room".to_string(),
            group_code: "room-code".to_string(),
            user_id: owner,
            approval_require: approval,
            maximum_members: max,
            created_at: at(0),
            expired_at: expiry,
        })
        .unwrap()
        .id
}

fn text(author: i32, group_id: i32, content: Option<&str>, t: MessageTypeEnum) -> NewMessage {
    NewMessage {
        message_uuid: 5,
        content: content.map(|c| c.to_string()),
        message_type: t,
        created_at: at(10),
        user_id: author,
        group_id,
    }
}

#[test]
fn create_user_rejects_taken_code() {
    let mut store = Store::new();
    let u = store
        .create_user(NewUser { username: "ann".to_string(), user_code: "c1".to_string(), created_at: at(3) })
        .unwrap();
    assert_eq!(u.username, "ann");
    assert_eq!(u.user_code, "c1");
    assert_eq!(u.created_at, at(3));
    let again = store.create_user(NewUser { username: "bob".to_string(), user_code: "c1".to_string(), created_at: at(4) });
    assert_eq!(again.err(), Some(StoreError::DuplicateKey));
    assert_eq!(store.users.len(), 1);
}

#[test]
fn create_group_needs_owner() {
    let mut store = Store::new();
    let r = store.create_group(NewGroup {
        name: "x".to_string(),
        group_code: "y".to_string(),
        user_id: 42,
        approval_require: None,
        maximum_members: None,
        created_at: at(0),
        expired_at: None,
    });
    assert_eq!(r.err(), Some(StoreError::NotFound));
    let owner = user(&mut store, "o");
    let g = group(&mut store, owner, Some(true), Some(3), None);
    assert_eq!(store.groups.len(), 1);
    assert_eq!(store.groups[0].id, g);
    assert_eq!(store.groups[0].maximum_members, Some(3));
    assert_eq!(store.groups[0].created_at, Some(at(0)));
}

#[test]
fn open_group_admits_directly() {
    let mut store = Store::new();
    let owner = user(&mut store, "o");
    let a = user(&mut store, "a");
    let g = group(&mut store, owner, Some(false), Some(2), None);
    match store.request_join(a, g, Some("hello".to_string()), at(1)) {
        Ok(JoinOutcome::Joined(p)) => {
            assert_eq!(p.user_id, a);
            assert_eq!(p.group_id, g);
        }
        _ => panic!("expected a membership"),
    }
    assert!(store.waiting.is_empty());
    assert!(store.is_participant(a, g));
    assert_eq!(store.count_members(g), 1);
    assert_eq!(store.request_join(a, g, None, at(2)).err(), Some(StoreError::AlreadyMember));
}

#[test]
fn open_group_full() {
    let mut store = Store::new();
    let owner = user(&mut store, "o");
    let a = user(&mut store, "a");
    let b = user(&mut store, "b");
    let g = group(&mut store, owner, None, Some(1), None);
    assert!(matches!(store.request_join(a, g, None, at(1)), Ok(JoinOutcome::Joined(_))));
    assert_eq!(store.request_join(b, g, None, at(1)).err(), Some(StoreError::GroupFull));
    assert_eq!(store.count_members(g), 1);
}

#[test]
fn expired_group_refuses() {
    let mut store = Store::new();
    let owner = user(&mut store, "o");
    let a = user(&mut store, "a");
    let g = group(&mut store, owner, None, None, Some(at(100)));
    assert_eq!(store.request_join(a, g, None, at(101)).err(), Some(StoreError::GroupExpired));
    assert!(matches!(store.request_join(a, g, None, at(100)), Ok(JoinOutcome::Joined(_))));
    assert!(store.insert_message(text(a, g, Some("in time"), MessageTypeEnum::TEXT), vec![]).is_ok());
}

#[test]
fn unknown_user_or_group() {
    let mut store = Store::new();
    let owner = user(&mut store, "o");
    let g = group(&mut store, owner, None, None, None);
    assert_eq!(store.request_join(999, g, None, at(0)).err(), Some(StoreError::NotFound));
    assert_eq!(store.request_join(owner, 999, None, at(0)).err(), Some(StoreError::NotFound));
}

#[test]
fn approval_group_records_request() {
    let mut store = Store::new();
    let owner = user(&mut store, "o");
    let a = user(&mut store, "a");
    let g = group(&mut store, owner, Some(true), None, None);
    match store.request_join(a, g, Some("let me in".to_string()), at(7)) {
        Ok(JoinOutcome::Waiting(w)) => {
            assert_eq!(w.user_id, a);
            assert_eq!(w.group_id, g);
            assert_eq!(w.message, Some("let me in".to_string()));
            assert_eq!(w.created_at, at(7));
        }
        _ => panic!("expected a pending request"),
    }
    assert_eq!(store.request_join(a, g, None, at(8)).err(), Some(StoreError::AlreadyRequested));
    assert!(!store.is_participant(a, g));
    assert!(store.is_requested(a, g));
}

#[test]
fn approve_moves_request_to_membership() {
    let mut store = Store::new();
    let owner = user(&mut store, "o");
    let a = user(&mut store, "a");
    let g = group(&mut store, owner, Some(true), None, None);
    let entry = match store.request_join(a, g, None, at(1)) {
        Ok(JoinOutcome::Waiting(w)) => w.id,
        _ => panic!("expected a pending request"),
    };
    let p = store.approve(entry, at(2)).unwrap();
    assert_eq!(p.user_id, a);
    assert_eq!(p.group_id, g);
    assert!(store.waiting.is_empty());
    assert_eq!(store.participants.len(), 1);
    assert_eq!(store.approve(entry, at(3)).err(), Some(StoreError::NotFound));
    assert_eq!(store.participants.len(), 1);
}

#[test]
fn approval_capacity_checked_at_promotion() {
    let mut store = Store::new();
    let owner = user(&mut store, "o");
    let a = user(&mut store, "a");
    let b = user(&mut store, "b");
    let g = group(&mut store, owner, Some(true), Some(1), None);
    let ea = match store.request_join(a, g, None, at(1)) {
        Ok(JoinOutcome::Waiting(w)) => w.id,
        _ => panic!("expected a pending request for A"),
    };
    let eb = match store.request_join(b, g, None, at(1)) {
        Ok(JoinOutcome::Waiting(w)) => w.id,
        _ => panic!("expected a pending request for B"),
    };
    assert!(store.approve(ea, at(2)).is_ok());
    assert!(store.is_participant(a, g));
    assert_eq!(store.approve(eb, at(3)).err(), Some(StoreError::GroupFull));
    assert!(!store.is_participant(b, g));
    assert!(store.is_requested(b, g));
    assert_eq!(store.count_members(g), 1);
}

#[test]
fn reject_is_idempotent() {
    let mut store = Store::new();
    let owner = user(&mut store, "o");
    let a = user(&mut store, "a");
    let g = group(&mut store, owner, Some(true), None, None);
    let e = match store.request_join(a, g, None, at(1)) {
        Ok(JoinOutcome::Waiting(w)) => w.id,
        _ => panic!("expected a pending request"),
    };
    store.reject(e);
    assert!(store.waiting.is_empty());
    store.reject(e);
    assert!(store.waiting.is_empty());
    assert!(!store.is_participant(a, g));
}

#[test]
fn message_needs_membership() {
    let mut store = Store::new();
    let owner = user(&mut store, "o");
    let g = group(&mut store, owner, None, None, None);
    let r = store.insert_message(text(owner, g, Some("hi"), MessageTypeEnum::TEXT), vec![]);
    assert_eq!(r.err(), Some(StoreError::NotAParticipant));
    assert!(store.messages.is_empty());
}

#[test]
fn message_in_expired_group_is_refused() {
    let mut store = Store::new();
    let owner = user(&mut store, "o");
    let g = group(&mut store, owner, None, None, Some(at(5)));
    store.request_join(owner, g, None, at(1)).unwrap();
    let r = store.insert_message(text(owner, g, Some("hi"), MessageTypeEnum::TEXT), vec![]);
    assert_eq!(r.err(), Some(StoreError::GroupExpired));
}

#[test]
fn attachment_message_without_attachments_is_refused() {
    let mut store = Store::new();
    let owner = user(&mut store, "o");
    let g = group(&mut store, owner, None, None, None);
    store.request_join(owner, g, None, at(1)).unwrap();
    let r = store.insert_message(text(owner, g, Some("see"), MessageTypeEnum::ATTACHMENT), vec![]);
    assert_eq!(r.err(), Some(StoreError::InvalidContent));
    let r = store.insert_message(text(owner, g, None, MessageTypeEnum::TEXT), vec![]);
    assert_eq!(r.err(), Some(StoreError::InvalidContent));
    assert!(store.messages.is_empty());
    assert!(store.attachments.is_empty());
}

#[test]
fn message_with_attachments_and_cascade_delete() {
    let mut store = Store::new();
    let owner = user(&mut store, "o");
    let g = group(&mut store, owner, None, None, None);
    store.request_join(owner, g, None, at(1)).unwrap();
    let m = store
        .insert_message(
            text(owner, g, None, MessageTypeEnum::ATTACHMENT),
            vec![("a.png".to_string(), AttachmentTypeEnum::IMAGE), ("b.mp3".to_string(), AttachmentTypeEnum::AUDIO)],
        )
        .unwrap();
    assert_eq!(m.content, None);
    assert_eq!(m.message_type, MessageTypeEnum::ATTACHMENT);
    assert_eq!(store.attachments.len(), 2);
    assert_eq!(store.attachments[0].url, "a.png");
    assert_eq!(store.attachments[0].message_id, m.id);
    assert_eq!(store.attachments[0].id, m.id + 1);
    assert_eq!(store.attachments[1].attachment_type, AttachmentTypeEnum::AUDIO);
    assert_eq!(store.attachments[1].id, m.id + 2);
    let other = store.insert_message(text(owner, g, Some("plain"), MessageTypeEnum::TEXT), vec![]).unwrap();
    store.delete_messages(&vec![m.id]);
    assert_eq!(store.messages.len(), 1);
    assert_eq!(store.messages[0].id, other.id);
    assert!(store.attachments.is_empty());
}

#[test]
fn edit_message_content_replaces_text() {
    let mut store = Store::new();
    let owner = user(&mut store, "o");
    let g = group(&mut store, owner, None, None, None);
    store.request_join(owner, g, None, at(1)).unwrap();
    let m = store.insert_message(text(owner, g, Some("one"), MessageTypeEnum::TEXT), vec![]).unwrap();
    assert_eq!(store.edit_message_content(m.id, "two".to_string()), Ok(()));
    assert_eq!(store.messages[0].content, Some("two".to_string()));
    assert_eq!(store.edit_message_content(m.id + 50, "x".to_string()), Err(StoreError::NotFound));
}

#[test]
fn user_lookup_by_code() {
    let mut store = Store::new();
    let a = user(&mut store, "a");
    assert_eq!(store.user_id_by_code(&"a".to_string()), Some(a));
    assert_eq!(store.user_id_by_code(&"zz".to_string()), None);
    assert!(store.user_exists(a));
    assert!(!store.user_exists(a + 10));
}
