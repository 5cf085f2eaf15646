//! This device among the devices of the user.

use vstd::prelude::*;
use vstd::string::*;
use crate::bytes;
use crate::device_sync::catalog;
use crate::device_sync::catalog::{ArchiveListing, NS_IN_DAY};

verus! {

/// This device among the devices of the user.
#[derive(Debug)]
pub struct DeviceSyncClient {
    pub inbox_id: String,
    pub installation_id: Vec<u8>,
}

impl DeviceSyncClient {
    /// The device of an inbox and an installation.
    pub fn new(inbox_id: String, installation_id: Vec<u8>) -> (r: Self)
        ensures
            r == (DeviceSyncClient { inbox_id, installation_id }),
    {
        DeviceSyncClient { inbox_id, installation_id }
    }

    pub fn inbox_id(&self) -> (r: &str)
        ensures
            r@ == self.inbox_id@,
    {
        self.inbox_id.as_str()
    }

    pub fn installation_id(&self) -> (r: Vec<u8>)
        ensures
            r@ == self.installation_id@,
    {
        bytes::clone_bytes(self.installation_id.as_slice())
    }

    /// Begins a list of the archives of the last days.
    pub fn list_available_archives(&self, now_ns: i64, days_cutoff: i64) -> (r: ArchiveListing)
        requires
            i64::MIN <= days_cutoff * NS_IN_DAY <= i64::MAX,
            i64::MIN <= now_ns - days_cutoff * NS_IN_DAY <= i64::MAX,
        ensures
            catalog::is_new_listing(now_ns, days_cutoff, r),
    {
        ArchiveListing::new(now_ns, days_cutoff)
    }
}

} // verus!
