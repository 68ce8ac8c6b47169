//! The stored form of the report archive.

use vstd::prelude::*;

verus! {

/// The encoded reports of one archive entry.
pub struct Record {
    reports: Vec<u8>,
}

impl Record {
    /// A record holding `reports`.
    pub fn new(reports: Vec<u8>) -> (r: Record)
        ensures
            r.bytes() == reports@,
    {
        Record { reports }
    }

    /// The bytes the record holds.
    pub closed spec fn bytes(&self) -> Seq<u8> {
        self.reports@
    }
}

} // verus!
