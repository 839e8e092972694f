//! Operational settings, loaded once per process from an external
//! document: platform credentials, the review channel, the standing role
//! identifiers, and the users allowed to run administrative commands.

use vstd::prelude::*;

verus! {

/// The operational settings the workflow reads.
#[derive(Debug, Clone)]
pub struct Secrets {
    pub guild_id: u64,
    pub token: String,
    pub authorized_ids: Vec<u64>,
    pub nmi_channel_id: u64,
    pub new_member_role_id: u64,
    pub member_role_id: u64,
}

impl Secrets {
    /// Whether the given user may run administrative commands.
    pub fn is_authorized(&self, user_id: u64) -> (r: bool)
        ensures
            r == self.authorized_ids@.contains(user_id),
    {
        let mut i: usize = 0;
        while i < self.authorized_ids.len()
            invariant
                i <= self.authorized_ids@.len(),
                forall|k: int| 0 <= k < i ==> self.authorized_ids@[k] != user_id,
            decreases self.authorized_ids@.len() - i,
        {
            if self.authorized_ids[i] == user_id {
                return true;
            }
            i = i + 1;
        }
        false
    }
}

} // verus!
