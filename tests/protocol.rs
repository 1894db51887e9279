use group_chat::models::{Message, MessageTypeEnum, NewGroup, NewUser};
use group_chat::protocol::{
    AuthenticationStatusCode, Outcome, ResultMessage, SMessageContent, SMessageStatus, SMessageType,
    SNewMessage, Session,
};
use group_chat::store::{JoinOutcome, Store};
use group_chat::time::Timestamp;

fn user(store: &mut Store, code: &str) -> i32 {
    store
        .create_user(NewUser {
            username: code.to_string(),
            user_code: code.to_string(),
            created_at: Timestamp::from_micros(0),
        })
        .unwrap()
        .id
}

fn open_group(store: &mut Store, owner: i32) -> i32 {
    store
        .create_group(NewGroup {
            name: "g".to_string(),
            group_code: "gc".to_string(),
            user_id: owner,
            approval_require: None,
            maximum_members: None,
            created_at: Timestamp::from_micros(0),
            expired_at: None,
        })
        .unwrap()
        .id
}

fn signed_in(store: &Store, code: &str) -> Session {
    let mut s = Session::new();
    let r = s.complete_authentication(store, Ok(code.to_string()));
    assert_eq!(r, SMessageType::AuthenticateResponse(ResultMessage::new(0, "Authenticated Successfully")));
    s
}

#[test]
fn result_message_new() {
    let r = ResultMessage::new(7, "seven");
    assert_eq!(r.status_code, 7);
    assert_eq!(r.message, "seven");
}

#[test]
fn authentication_codes() {
    let cases = [
        (AuthenticationStatusCode::Success, 0, "Authenticated Successfully"),
        (AuthenticationStatusCode::Timeout, 1, "Authentication Timeout"),
        (AuthenticationStatusCode::UnsupportedMessageType, 2, "Only supports authenticated text message type"),
        (AuthenticationStatusCode::NoPermission, 3, "User does not have permission to access this group"),
        (AuthenticationStatusCode::ExpireOrNotFound, 4, "User token is expired or not found"),
        (AuthenticationStatusCode::Other, 5, "Failed to get user from user code"),
    ];
    for (c, code, text) in cases {
        let r = c.into();
        assert_eq!(r.status_code, code);
        assert_eq!(r.message, text);
    }
}

#[test]
fn stored_message_without_content_goes_out_empty_and_sent() {
    let m = Message {
        id: 4,
        message_uuid: 99,
        content: None,
        message_type: MessageTypeEnum::TEXT,
        created_at: Timestamp::from_micros(1_000),
        user_id: 2,
        group_id: 3,
    };
    let c = SMessageContent::from(m);
    assert_eq!(c.content, "");
    assert_eq!(c.status, SMessageStatus::Sent);
    assert_eq!(c.message_uuid, 99);
    assert_eq!(c.user_id, 2);
    assert_eq!(c.group_id, 3);
    assert_eq!(c.created_at, Timestamp::from_micros(1_000));
}

#[test]
fn stored_message_content_is_kept() {
    let m = Message {
        id: 4,
        message_uuid: 1,
        content: Some("hello".to_string()),
        message_type: MessageTypeEnum::TEXT,
        created_at: Timestamp::from_micros(5),
        user_id: 2,
        group_id: 3,
    };
    assert_eq!(SMessageContent::from(m).content, "hello");
}

#[test]
fn build_new_message_fields() {
    let n = SNewMessage { message_uuid: 42, group_id: 8, content: "hey".to_string() };
    let row = n.build_new_message(5).expect("clock readable");
    assert_eq!(row.message_uuid, 42);
    assert_eq!(row.group_id, 8);
    assert_eq!(row.user_id, 5);
    assert_eq!(row.content, Some("hey".to_string()));
    assert_eq!(row.message_type, MessageTypeEnum::TEXT);
    let at = n.build_new_message_at(5, Timestamp::from_micros(77));
    assert_eq!(at.created_at, Timestamp::from_micros(77));
}

#[test]
fn unauthenticated_session_takes_only_authenticate() {
    let mut store = Store::new();
    let mut s = Session::new();
    let r = s.handle(&mut store, SMessageType::SubscribeGroup(1), Timestamp::from_micros(0));
    assert!(matches!(r, Outcome::Reply(SMessageType::UnSupportMessage(_))));
    let r = s.handle(&mut store, SMessageType::Authenticate("tok".to_string()), Timestamp::from_micros(0));
    assert_eq!(r, Outcome::ResolveToken("tok".to_string()));
    assert_eq!(s.user_id, None);
}

#[test]
fn authentication_failures() {
    let mut store = Store::new();
    user(&mut store, "alice");
    let mut s = Session::new();
    let r = s.complete_authentication(&store, Err(AuthenticationStatusCode::ExpireOrNotFound));
    assert_eq!(r, SMessageType::AuthenticateResponse(ResultMessage::new(4, "User token is expired or not found")));
    let r = s.complete_authentication(&store, Ok("nobody".to_string()));
    assert_eq!(r, SMessageType::AuthenticateResponse(ResultMessage::new(5, "Failed to get user from user code")));
    assert_eq!(s.user_id, None);
    let s = signed_in(&store, "alice");
    assert!(s.user_id.is_some());
}

#[test]
fn send_by_non_participant_is_refused() {
    let mut store = Store::new();
    let owner = user(&mut store, "owner");
    let u = user(&mut store, "u");
    let g = open_group(&mut store, owner);
    let mut s = signed_in(&store, "u");
    assert_eq!(s.user_id, Some(u));
    let r = s.handle(
        &mut store,
        SMessageType::Send(SNewMessage { message_uuid: 1, group_id: g, content: "hi".to_string() }),
        Timestamp::from_micros(10),
    );
    assert_eq!(r, Outcome::Reject(AuthenticationStatusCode::NoPermission.into()));
    assert_eq!(store.messages.len(), 0);
}

#[test]
fn subscribe_refused_outside_group() {
    let mut store = Store::new();
    let owner = user(&mut store, "owner");
    user(&mut store, "u");
    let g = open_group(&mut store, owner);
    let mut s = signed_in(&store, "u");
    let r = s.handle(&mut store, SMessageType::SubscribeGroup(g), Timestamp::from_micros(0));
    assert_eq!(
        r,
        Outcome::Reply(SMessageType::SubscribeGroupResponse(AuthenticationStatusCode::NoPermission.into()))
    );
    assert!(s.subscriptions.is_empty());
}

#[test]
fn send_edit_delete_flow() {
    let mut store = Store::new();
    let owner = user(&mut store, "owner");
    let u = user(&mut store, "u");
    let g = open_group(&mut store, owner);
    assert!(matches!(
        store.request_join(u, g, None, Timestamp::from_micros(1)),
        Ok(JoinOutcome::Joined(_))
    ));
    let mut s = signed_in(&store, "u");
    let now = Timestamp::from_micros(10);
    let send = SMessageType::Send(SNewMessage { message_uuid: 7, group_id: g, content: "hi".to_string() });
    // not yet subscribed
    assert_eq!(
        s.handle(&mut store, send.clone(), now),
        Outcome::Reject(AuthenticationStatusCode::NoPermission.into())
    );
    let r = s.handle(&mut store, SMessageType::SubscribeGroup(g), now);
    assert_eq!(r, Outcome::Reply(SMessageType::SubscribeGroupResponse(AuthenticationStatusCode::Success.into())));
    assert_eq!(s.subscriptions, vec![g]);
    let r = s.handle(&mut store, send, now);
    let expected = SMessageContent {
        message_uuid: 7,
        user_id: u,
        group_id: g,
        content: "hi".to_string(),
        created_at: now,
        status: SMessageStatus::Sent,
    };
    assert_eq!(r, Outcome::Broadcast(vec![g], SMessageType::Receive(expected.clone())));
    assert_eq!(store.messages.len(), 1);
    let id = store.messages[0].id;

    let mut edited = expected.clone();
    edited.content = "hello".to_string();
    let r = s.handle(&mut store, SMessageType::Edit(edited.clone()), now);
    assert_eq!(r, Outcome::Broadcast(vec![g], SMessageType::Edit(edited)));
    assert_eq!(store.messages[0].content, Some("hello".to_string()));

    let r = s.handle(&mut store, SMessageType::Delete(vec![id + 100]), now);
    assert_eq!(r, Outcome::Reject(AuthenticationStatusCode::NoPermission.into()));
    let r = s.handle(&mut store, SMessageType::Delete(vec![id]), now);
    assert_eq!(r, Outcome::Broadcast(vec![g], SMessageType::Delete(vec![id])));
    assert!(store.messages.is_empty());
}

#[test]
fn empty_text_is_refused_with_unsupported_type() {
    let mut store = Store::new();
    let owner = user(&mut store, "owner");
    let g = open_group(&mut store, owner);
    store.request_join(owner, g, None, Timestamp::from_micros(1)).unwrap();
    let mut s = signed_in(&store, "owner");
    s.handle(&mut store, SMessageType::SubscribeGroup(g), Timestamp::from_micros(2));
    let r = s.handle(
        &mut store,
        SMessageType::Send(SNewMessage { message_uuid: 1, group_id: g, content: String::new() }),
        Timestamp::from_micros(3),
    );
    assert_eq!(r, Outcome::Reject(AuthenticationStatusCode::UnsupportedMessageType.into()));
    assert!(store.messages.is_empty());
}

#[test]
fn responses_from_client_are_unsupported() {
    let mut store = Store::new();
    user(&mut store, "u");
    let mut s = signed_in(&store, "u");
    let r = s.handle(&mut store, SMessageType::UnSupportMessage("x".to_string()), Timestamp::from_micros(0));
    assert!(matches!(r, Outcome::Reply(SMessageType::UnSupportMessage(_))));
    let r = s.handle(&mut store, SMessageType::Authenticate("t".to_string()), Timestamp::from_micros(0));
    assert!(matches!(r, Outcome::Reply(SMessageType::UnSupportMessage(_))));
}
