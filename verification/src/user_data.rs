//! The per-user record: the identity, the counter, and one timestamp for
//! each of the two independently gated mutation channels.

use vstd::prelude::*;

verus! {

/// Seconds in one calendar day; timestamps are unix seconds (UTC).
pub const SECONDS_PER_DAY: i64 = 86400;

/// One user's persisted state.
///
/// `pisun` is the game's counter; it is never observably negative.
/// `last_command` is the time of the last accepted roll, `last_train` the
/// time of the last accepted training: the two channels cool down
/// independently.
#[derive(Clone, Copy, Debug, PartialEq, Eq, Structural)]
pub struct UserData {
    pub user_id: i64,
    pub pisun: i32,
    pub last_command: i64,
    pub last_train: i64,
}

impl UserData {
    /// A record is well formed when its counter is non-negative.
    pub open spec fn wf(self) -> bool {
        self.pisun >= 0
    }

    /// A fresh record: counter at zero, both timestamps one full cooldown
    /// period in the past, so that the very first action on each channel is
    /// permitted.
    pub fn new(user_id: i64, now: i64) -> (r: UserData)
        requires
            i64::MIN + SECONDS_PER_DAY <= now,
        ensures
            r.user_id == user_id,
            r.pisun == 0,
            r.last_command == now - SECONDS_PER_DAY,
            r.last_train == now - SECONDS_PER_DAY,
            r.wf(),
    {
        UserData {
            user_id,
            pisun: 0,
            last_command: now - SECONDS_PER_DAY,
            last_train: now - SECONDS_PER_DAY,
        }
    }
}

} // verus!
