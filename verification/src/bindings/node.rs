//! Values for Node.js.

use vstd::prelude::*;
use vstd::string::*;
use crate::messages;

verus! {

/// What JavaScript is told of an error: the code of the error in brackets, then its message.
pub fn error_reason(code: &str, message: &str) -> (r: String)
    ensures
        r@ == "["@ + code@ + "] "@ + message@,
{
    "[".to_owned().concat(code).concat("] ").concat(message)
}

/// Who deleted a message.
#[derive(Clone, Copy, Debug, PartialEq, Eq, Structural)]
pub enum DeletedBy {
    Sender,
    Admin,
}

/// A message that was deleted.
#[derive(Debug)]
pub struct DeletedMessage {
    pub deleted_by: DeletedBy,
    /// The super admin who deleted it, where one did.
    pub admin_inbox_id: Option<String>,
}

impl From<messages::DeletedBy> for DeletedBy {
    fn from(value: messages::DeletedBy) -> (r: Self) {
        match value {
            messages::DeletedBy::Sender => DeletedBy::Sender,
            messages::DeletedBy::Admin(_) => DeletedBy::Admin,
        }
    }
}

impl vstd::std_specs::convert::FromSpecImpl<messages::DeletedBy> for DeletedBy {
    open spec fn obeys_from_spec() -> bool {
        true
    }

    open spec fn from_spec(value: messages::DeletedBy) -> Self {
        match value {
            messages::DeletedBy::Sender => DeletedBy::Sender,
            messages::DeletedBy::Admin(_) => DeletedBy::Admin,
        }
    }
}

impl From<messages::DeletedBy> for DeletedMessage {
    fn from(value: messages::DeletedBy) -> (r: Self) {
        match value {
            messages::DeletedBy::Sender => DeletedMessage { deleted_by: DeletedBy::Sender, admin_inbox_id: None },
            messages::DeletedBy::Admin(inbox_id) => DeletedMessage {
                deleted_by: DeletedBy::Admin,
                admin_inbox_id: Some(inbox_id),
            },
        }
    }
}

impl vstd::std_specs::convert::FromSpecImpl<messages::DeletedBy> for DeletedMessage {
    open spec fn obeys_from_spec() -> bool {
        true
    }

    open spec fn from_spec(value: messages::DeletedBy) -> Self {
        match value {
            messages::DeletedBy::Sender => DeletedMessage { deleted_by: DeletedBy::Sender, admin_inbox_id: None },
            messages::DeletedBy::Admin(inbox_id) => DeletedMessage {
                deleted_by: DeletedBy::Admin,
                admin_inbox_id: Some(inbox_id),
            },
        }
    }
}

/// A deletion by the sender names nobody, and one by a super admin names the super admin.
pub proof fn deletions_name_the_admin(value: messages::DeletedBy, by: DeletedBy, message: DeletedMessage)
    requires
        by == <DeletedBy as vstd::std_specs::convert::FromSpec<messages::DeletedBy>>::from_spec(value),
        message == <DeletedMessage as vstd::std_specs::convert::FromSpec<messages::DeletedBy>>::from_spec(value),
    ensures
        message.deleted_by == by,
        value is Sender ==> by == DeletedBy::Sender && message.admin_inbox_id is None,
        value matches messages::DeletedBy::Admin(inbox_id) ==> by == DeletedBy::Admin && message.admin_inbox_id == Some(
            inbox_id,
        ),
{
}

} // verus!
