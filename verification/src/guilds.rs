//! Guild table: one row per initialised guild, carrying the optional role id
//! whose holders count as the guild's moderators.

use std::collections::HashMap;

use vstd::prelude::*;

use crate::auth::{contains_id, Member};
use crate::error::ConfessError;

verus! {

broadcast use vstd::std_specs::hash::group_hash_axioms;

/// One guild's row: the guild and, if set, its moderator role.
#[derive(Clone, Copy, Debug, PartialEq, Eq, Structural)]
pub struct GuildRecord {
    pub id: u64,
    pub admin_role: Option<u64>,
}

proof fn lemma_guild_keys_after_insert(
    pre: Map<u64, GuildRecord>,
    post: Map<u64, GuildRecord>,
    g: u64,
    rec: GuildRecord,
)
    requires
        post == pre.insert(g, rec),
        rec.id == g,
        forall|g2: u64| pre.contains_key(g2) ==> (#[trigger] pre[g2]).id == g2,
    ensures
        forall|g2: u64| post.contains_key(g2) ==> (#[trigger] post[g2]).id == g2,
{
    assert forall|g2: u64| post.contains_key(g2) implies (#[trigger] post[g2]).id == g2 by {
        if g2 != g {
            assert(pre.contains_key(g2));
            assert(post[g2] == pre[g2]);
        }
    }
}

/// The guild table.
pub struct GuildTable {
    records: HashMap<u64, GuildRecord>,
}

impl GuildTable {
    /// The rows, keyed by guild.
    pub closed spec fn table(&self) -> Map<u64, GuildRecord> {
        self.records@
    }

    /// Every row carries the guild it is keyed under.
    pub open spec fn wf(&self) -> bool {
        forall|g: u64| self.table().contains_key(g) ==> (#[trigger] self.table()[g]).id == g
    }

    /// An empty table.
    pub fn new() -> (r: GuildTable)
        ensures
            r.wf(),
            r.table() == Map::<u64, GuildRecord>::empty(),
    {
        GuildTable { records: HashMap::new() }
    }

    /// The guild's row; `NotFound` for a guild that was never initialised.
    pub fn get_guild(&self, guild_id: u64) -> (r: Result<GuildRecord, ConfessError>)
        ensures
            self.table().contains_key(guild_id) ==> r == Ok::<GuildRecord, ConfessError>(
                self.table()[guild_id],
            ),
            !self.table().contains_key(guild_id) ==> r == Err::<GuildRecord, ConfessError>(
                ConfessError::NotFound,
            ),
    {
        match self.records.get(&guild_id) {
            Some(record) => Ok(*record),
            None => Err(ConfessError::NotFound),
        }
    }

    /// Initialises the guild with no moderator role; a guild already present
    /// is left exactly as it is.
    pub fn add_or_nothing_guild(&mut self, guild_id: u64)
        requires
            old(self).wf(),
        ensures
            final(self).wf(),
            old(self).table().contains_key(guild_id) ==> final(self).table() == old(self).table(),
            !old(self).table().contains_key(guild_id) ==> final(self).table() == old(
                self,
            ).table().insert(guild_id, GuildRecord { id: guild_id, admin_role: None }),
    {
        if !self.records.contains_key(&guild_id) {
            let record = GuildRecord { id: guild_id, admin_role: None };
            self.records.insert(guild_id, record);
            proof {
                lemma_guild_keys_after_insert(old(self).table(), self.table(), guild_id, record);
            }
        }
    }

    /// Upserts a guild's row under the guild it names.
    pub fn set_guild(&mut self, record: GuildRecord)
        requires
            old(self).wf(),
        ensures
            final(self).wf(),
            final(self).table() == old(self).table().insert(record.id, record),
    {
        self.records.insert(record.id, record);
        proof {
            lemma_guild_keys_after_insert(old(self).table(), self.table(), record.id, record);
        }
    }

    /// Sets the guild's moderator role, initialising the row if need be.
    pub fn set_guild_admin_role(&mut self, guild_id: u64, role_id: u64)
        requires
            old(self).wf(),
        ensures
            final(self).wf(),
            final(self).table() == old(self).table().insert(
                guild_id,
                GuildRecord { id: guild_id, admin_role: Some(role_id) },
            ),
    {
        let record = GuildRecord { id: guild_id, admin_role: Some(role_id) };
        self.records.insert(guild_id, record);
        proof {
            lemma_guild_keys_after_insert(old(self).table(), self.table(), guild_id, record);
        }
    }

    /// The guild's moderator role, if the guild is initialised and one is
    /// set; `NotFound` for a guild never initialised.
    pub fn get_guild_mod_role(&self, guild_id: u64) -> (r: Result<Option<u64>, ConfessError>)
        ensures
            self.table().contains_key(guild_id) ==> r == Ok::<Option<u64>, ConfessError>(
                self.table()[guild_id].admin_role,
            ),
            !self.table().contains_key(guild_id) ==> r == Err::<Option<u64>, ConfessError>(
                ConfessError::NotFound,
            ),
    {
        match self.records.get(&guild_id) {
            Some(record) => Ok(record.admin_role),
            None => Err(ConfessError::NotFound),
        }
    }
}

/// The identities holding the moderator role, snapshotted from the
/// guild's current member list in member order.
#[verifier::loop_isolation(false)]
pub fn get_guild_moderators(members: &Vec<Member>, mod_role: u64) -> (r: Vec<u64>)
    ensures
        r@ == members@.filter(|m: Member| m.roles@.contains(mod_role)).map_values(
            |m: Member| m.user_id,
        ),
{
    let pred = Ghost(|m: Member| m.roles@.contains(mod_role));
    let f = Ghost(|m: Member| m.user_id);
    let n = members.len();
    let mut out: Vec<u64> = Vec::new();
    let mut i: usize = 0;
    while i < n
        invariant
            0 <= i <= n,
            out@ == members@.take(i as int).filter(pred@).map_values(f@),
        decreases n - i,
    {
        proof {
            broadcast use Seq::lemma_filter_push;
            broadcast use Seq::lemma_push_map_commute;

            assert(members@.take(i as int + 1).drop_last() =~= members@.take(i as int));
            assert(members@.take(i as int + 1) =~= members@.take(i as int).push(
                members@[i as int],
            ));
        }
        if contains_id(&members[i].roles, mod_role) {
            out.push(members[i].user_id);
            proof {
                assert(out@ =~= members@.take(i as int + 1).filter(pred@).map_values(f@));
            }
        }
        i = i + 1;
    }
    proof {
        assert(members@.take(n as int) =~= members@);
    }
    out
}

} // verus!
