//! Create-conversation validation and the per-conversation access gate.

use chat_relay::conversation::{
    conversation_access, validate_new_conversation, ConversationAccess,
    CreateConversationError, Request,
};

fn request(members: &[&str]) -> Request {
    Request {
        conversation_name: "weekend plans".to_string(),
        members: members.iter().map(|m| m.to_string()).collect(),
    }
}

#[test]
fn accepts_group_including_requester() {
    let r = request(&["user_one", "user_two"]);
    assert!(validate_new_conversation(&r, "user_one").is_ok());
    assert!(validate_new_conversation(&r, "user_two").is_ok());
}

#[test]
fn rejects_requester_missing_from_members() {
    let r = request(&["user_two", "user_three"]);
    assert!(matches!(
        validate_new_conversation(&r, "user_one"),
        Err(CreateConversationError::RequesterNotMember)
    ));
    let empty = request(&[]);
    assert!(matches!(
        validate_new_conversation(&empty, "user_one"),
        Err(CreateConversationError::RequesterNotMember)
    ));
}

#[test]
fn rejects_conversation_with_requester_alone() {
    let r = request(&["user_one"]);
    assert!(matches!(
        validate_new_conversation(&r, "user_one"),
        Err(CreateConversationError::SoleMember)
    ));
}

#[test]
fn membership_check_comes_first() {
    // A single-entry list without the requester draws the membership error,
    // not the single-member one.
    let r = request(&["user_two"]);
    assert!(matches!(
        validate_new_conversation(&r, "user_one"),
        Err(CreateConversationError::RequesterNotMember)
    ));
}

#[test]
fn access_gate_orders_its_checks() {
    assert!(matches!(
        conversation_access(false, false),
        ConversationAccess::Unauthorized
    ));
    assert!(matches!(
        conversation_access(false, true),
        ConversationAccess::Unauthorized
    ));
    assert!(matches!(
        conversation_access(true, false),
        ConversationAccess::Forbidden
    ));
    assert!(matches!(
        conversation_access(true, true),
        ConversationAccess::Allowed
    ));
}
