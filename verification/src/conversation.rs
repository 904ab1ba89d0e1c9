//! Conversation management rules: what a request to create a conversation
//! must look like, and who may read or post into an existing one. The
//! storage queries themselves live with the collaborator data layer; it
//! feeds their answers into these functions and acts on the decision.

use vstd::prelude::*;

verus! {

use vstd::string::StrSliceExecFns;

/// A request to create a conversation: its name and the usernames of its
/// intended members.
pub struct Request {
    pub conversation_name: String,
    pub members: Vec<String>,
}

/// Why a create-conversation request is rejected.
#[derive(Clone, Copy, Debug, PartialEq, Eq, Structural)]
pub enum CreateConversationError {
    /// The requesting user does not appear in the members list.
    RequesterNotMember,
    /// The members list names nobody but the requester.
    SoleMember,
}

/// `name` appears among `members`.
pub open spec fn members_contain(members: Seq<String>, name: Seq<char>) -> bool {
    exists|i: int| 0 <= i < members.len() && #[trigger] members[i]@ == name
}

/// The two strings hold the same characters.
fn str_eq(a: &str, b: &str) -> (r: bool)
    ensures
        r <==> a@ == b@,
{
    let n = a.unicode_len();
    if n != b.unicode_len() {
        return false;
    }
    let mut i: usize = 0;
    while i < n
        invariant
            i <= n,
            n == a@.len(),
            n == b@.len(),
            forall|j: int| 0 <= j < i ==> a@[j] == b@[j],
        decreases n - i,
    {
        if a.get_char(i) != b.get_char(i) {
            return false;
        }
        i = i + 1;
    }
    proof {
        assert(a@ =~= b@);
    }
    true
}

/// Validate a create-conversation request from `username`: the requester
/// must be in the members list — checked first — and must not be its only
/// entry. Exactly the well-formed requests pass.
pub fn validate_new_conversation(request: &Request, username: &str) -> (r: Result<
    (),
    CreateConversationError,
>)
    ensures
        r matches Err(e) ==> (e is RequesterNotMember <==> !members_contain(
            request.members@,
            username@,
        )),
        r matches Err(e) && e is SoleMember ==> members_contain(request.members@, username@)
            && request.members@.len() == 1,
        r is Ok <==> members_contain(request.members@, username@) && request.members@.len() != 1,
{
    let mut found = false;
    let mut i: usize = 0;
    let n = request.members.len();
    while i < n
        invariant
            i <= n,
            n == request.members@.len(),
            found <==> exists|j: int|
                0 <= j < i && #[trigger] request.members@[j]@ == username@,
        decreases n - i,
    {
        if str_eq(request.members[i].as_str(), username) {
            found = true;
            proof {
                assert(request.members@[i as int]@ == username@);
            }
        }
        i = i + 1;
    }
    if !found {
        return Err(CreateConversationError::RequesterNotMember);
    }
    if request.members.len() == 1 {
        return Err(CreateConversationError::SoleMember);
    }
    Ok(())
}

/// How a request that reads or posts into a conversation is answered.
#[derive(Clone, Copy, Debug, PartialEq, Eq, Structural)]
pub enum ConversationAccess {
    /// No authenticated identity: the request is turned away unauthorized.
    Unauthorized,
    /// The identity is no member of the conversation: forbidden.
    Forbidden,
    /// A member's request: let it through.
    Allowed,
}

/// The access gate every per-conversation request passes: first the session
/// must carry an identity, then — by the storage layer's answer `is_member`
/// — that identity must belong to the conversation.
pub fn conversation_access(logged_in: bool, is_member: bool) -> (r: ConversationAccess)
    ensures
        r is Unauthorized <==> !logged_in,
        r is Forbidden <==> logged_in && !is_member,
        r is Allowed <==> logged_in && is_member,
{
    if !logged_in {
        ConversationAccess::Unauthorized
    } else if !is_member {
        ConversationAccess::Forbidden
    } else {
        ConversationAccess::Allowed
    }
}

} // verus!
