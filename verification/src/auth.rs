//! Capability-style authorisation: every command makes exactly one
//! `authorize` call before it mutates state.

use vstd::prelude::*;

verus! {

/// What a command requires of the actor who invoked it.
#[derive(Clone, Copy, Debug, PartialEq, Eq, Structural)]
pub enum Auth {
    /// Anyone may act.
    Everyone,
    /// The actor must hold a role that grants channel management.
    Admin,
    /// The actor must be exactly this member.
    User(u64),
    /// The actor must hold this role.
    Role(u64),
}

/// A guild member as the platform reports them: their identity and the roles
/// they hold in the guild.
pub struct Member {
    pub user_id: u64,
    pub roles: Vec<u64>,
}

/// Whether an actor with identity `user_id` holding `roles` meets
/// `required`, when `admin_roles` are the guild roles that grant channel
/// management.
pub open spec fn spec_authorized(
    user_id: u64,
    roles: Seq<u64>,
    admin_roles: Seq<u64>,
    required: Auth,
) -> bool {
    match required {
        Auth::Everyone => true,
        Auth::Admin => exists|i: int|
            0 <= i < roles.len() && #[trigger] admin_roles.contains(roles[i]),
        Auth::User(id) => user_id == id,
        Auth::Role(role_id) => roles.contains(role_id),
    }
}

/// Whether `ids` holds `x`.
pub fn contains_id(ids: &Vec<u64>, x: u64) -> (r: bool)
    ensures
        r == ids@.contains(x),
{
    let n = ids.len();
    let mut i: usize = 0;
    while i < n
        invariant
            n == ids@.len(),
            0 <= i <= n,
            forall|j: int| 0 <= j < i ==> ids@[j] != x,
        decreases n - i,
    {
        if ids[i] == x {
            return true;
        }
        i = i + 1;
    }
    false
}

/// The one authorisation check. `admin_roles` are the guild roles that grant
/// channel management; only the `Admin` requirement reads them.
pub fn authorize(actor: &Member, admin_roles: &Vec<u64>, required: Auth) -> (r: bool)
    ensures
        r == spec_authorized(actor.user_id, actor.roles@, admin_roles@, required),
{
    match required {
        Auth::Everyone => true,
        Auth::Admin => {
            let n = actor.roles.len();
            let mut i: usize = 0;
            while i < n
                invariant
                    required == Auth::Admin,
                    n == actor.roles@.len(),
                    0 <= i <= n,
                    forall|j: int| 0 <= j < i ==> !admin_roles@.contains(actor.roles@[j]),
                decreases n - i,
            {
                if contains_id(admin_roles, actor.roles[i]) {
                    assert(admin_roles@.contains(actor.roles@[i as int]));
                    return true;
                }
                i = i + 1;
            }
            false
        },
        Auth::User(id) => actor.user_id == id,
        Auth::Role(role_id) => contains_id(&actor.roles, role_id),
    }
}

} // verus!
