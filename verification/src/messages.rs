//! What is shown of messages.

use vstd::prelude::*;

verus! {

/// Who deleted a message.
#[derive(Debug)]
pub enum DeletedBy {
    Sender,
    /// A super admin, by inbox.
    Admin(String),
}

} // verus!
