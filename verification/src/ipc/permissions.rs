//! Peer permission checks (by the connecting process's uid): root and the
//! daemon's own uid are allowed.

use vstd::prelude::*;

verus! {

pub struct Permissions {
    daemon_uid: u32,
}

impl Permissions {
    /// The uid the daemon runs as.
    pub closed spec fn daemon_uid(&self) -> u32 {
        self.daemon_uid
    }

    pub fn new(daemon_uid: u32) -> (p: Self)
        ensures
            p.daemon_uid() == daemon_uid,
    {
        Permissions { daemon_uid }
    }

    /// A peer is allowed when its uid is known and is root's or the
    /// daemon's.
    pub fn check_uid(&self, uid: Option<u32>) -> (r: bool)
        ensures
            r == (uid matches Some(u) && (u == 0 || u == self.daemon_uid())),
    {
        match uid {
            Some(u) => u == 0 || u == self.daemon_uid,
            None => false,
        }
    }
}

} // verus!
