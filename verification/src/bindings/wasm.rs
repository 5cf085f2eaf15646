//! Values for the browser.

use vstd::prelude::*;
use crate::messages;

verus! {

/// A message that was deleted.
#[derive(Debug)]
pub struct DeletedMessage {
    pub deleted_by: DeletedBy,
    /// The super admin who deleted it, where one did.
    pub admin_inbox_id: Option<String>,
}

/// Who deleted a message.
#[derive(Clone, Copy, Debug, PartialEq, Eq, Structural)]
pub enum DeletedBy {
    Sender,
    Admin,
}

/// The number that stands for who deleted a message.
pub open spec fn number_of(by: DeletedBy) -> u32 {
    match by {
        DeletedBy::Sender => 0,
        DeletedBy::Admin => 1,
    }
}

impl DeletedBy {
    /// The number that stands for it.
    pub fn number(&self) -> (r: u32)
        ensures
            r == number_of(*self),
    {
        match self {
            DeletedBy::Sender => 0,
            DeletedBy::Admin => 1,
        }
    }
}

impl From<messages::DeletedBy> for DeletedMessage {
    fn from(value: messages::DeletedBy) -> (r: Self) {
        match value {
            messages::DeletedBy::Sender => DeletedMessage { deleted_by: DeletedBy::Sender, admin_inbox_id: None },
            messages::DeletedBy::Admin(inbox_id) => DeletedMessage {
                deleted_by: DeletedBy::Admin,
                admin_inbox_id: Some(inbox_id),
            },
        }
    }
}

impl vstd::std_specs::convert::FromSpecImpl<messages::DeletedBy> for DeletedMessage {
    open spec fn obeys_from_spec() -> bool {
        true
    }

    open spec fn from_spec(value: messages::DeletedBy) -> Self {
        match value {
            messages::DeletedBy::Sender => DeletedMessage { deleted_by: DeletedBy::Sender, admin_inbox_id: None },
            messages::DeletedBy::Admin(inbox_id) => DeletedMessage {
                deleted_by: DeletedBy::Admin,
                admin_inbox_id: Some(inbox_id),
            },
        }
    }
}

/// A deletion by the sender has the number zero and names nobody, and one by a super admin has the number one and names
/// the super admin.
pub proof fn deletions_name_the_admin(value: messages::DeletedBy, message: DeletedMessage)
    requires
        message == <DeletedMessage as vstd::std_specs::convert::FromSpec<messages::DeletedBy>>::from_spec(value),
    ensures
        value is Sender ==> number_of(message.deleted_by) == 0 && message.admin_inbox_id is None,
        value matches messages::DeletedBy::Admin(inbox_id) ==> number_of(message.deleted_by) == 1
            && message.admin_inbox_id == Some(inbox_id),
{
}

} // verus!
