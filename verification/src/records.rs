//! The ledger's record type.
//!
//! One record is written per started transfer and never mutated; the
//! ledger replays the full list at process start to drive the resume
//! pass.  The storage engine that keeps the records lives outside the
//! library and hands them over as plain values.

use vstd::prelude::*;

verus! {

/// One persisted transfer: what was downloaded, from where, and to
/// where.  Created exactly once, when a transfer starts; deleted only by
/// explicit user removal, which does not touch a running transfer.
#[derive(Clone, Debug)]
pub struct DownloadRecord {
    pub display_name: String,
    pub title: String,
    pub transfer_identifier: String,
    pub source_name: String,
    pub destination_path: String,
}

impl DownloadRecord {
    /// Builds the record for a transfer that just started.
    pub fn new(
        display_name: String,
        title: String,
        transfer_identifier: String,
        source_name: String,
        destination_path: String,
    ) -> (r: DownloadRecord)
        ensures
            r.display_name@ == display_name@,
            r.title@ == title@,
            r.transfer_identifier@ == transfer_identifier@,
            r.source_name@ == source_name@,
            r.destination_path@ == destination_path@,
    {
        DownloadRecord { display_name, title, transfer_identifier, source_name, destination_path }
    }
}

} // verus!
