//! Trusted wrapper around the platform clock.  The body only makes the
//! outside call; nothing is promised of the result, because the clock does
//! not depend on any argument.  The other platform facts the library needs
//! (directory listings, existence and directory probes, the sniffed MIME
//! type) are gathered at the boundary and handed in as plain values: the
//! probes depend on the disk, and the sniffer can abort on an unreadable
//! path, which no contract over its argument could exclude.

use vstd::prelude::*;

verus! {

/// Relies on chrono::Local::now: the current time as seconds since the Unix
/// epoch.  The clock's value cannot be pinned by a contract.
#[verifier::external_body]
pub(crate) fn now_timestamp() -> i64 {
    chrono::Local::now().timestamp()
}

} // verus!
