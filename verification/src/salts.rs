//! Pseudonym store: one salt per guild, created lazily on first use, replaced
//! by shuffle and never deleted. A shuffle-lock flag protects the salt; while
//! it is set a shuffle is refused.

use std::collections::HashMap;

use vstd::prelude::*;

use crate::error::ConfessError;
use crate::pseudonym::derive_tag;

verus! {

broadcast use vstd::std_specs::hash::group_hash_axioms;

/// One guild's row: its pseudonym salt (kept under the store's historical
/// column name `hash`) and the shuffle lock.
#[derive(Clone, Copy, Debug, PartialEq, Eq, Structural)]
pub struct GuildConfessionRecord {
    pub guild_id: u64,
    pub hash: u64,
    pub lock_shuffle: bool,
}

/// Relies on `rand::random`: a value from the thread-local generator. Nothing
/// is assumed of the result.
#[verifier::external_body]
fn random_salt() -> u64 {
    rand::random()
}

proof fn lemma_row_keys_after_insert(
    pre: Map<u64, GuildConfessionRecord>,
    post: Map<u64, GuildConfessionRecord>,
    g: u64,
    rec: GuildConfessionRecord,
)
    requires
        post == pre.insert(g, rec),
        rec.guild_id == g,
        forall|g2: u64| pre.contains_key(g2) ==> (#[trigger] pre[g2]).guild_id == g2,
    ensures
        forall|g2: u64| post.contains_key(g2) ==> (#[trigger] post[g2]).guild_id == g2,
{
    assert forall|g2: u64| post.contains_key(g2) implies (#[trigger] post[g2]).guild_id == g2 by {
        if g2 != g {
            assert(pre.contains_key(g2));
            assert(post[g2] == pre[g2]);
        }
    }
}

/// The per-guild salt table.
pub struct GuildConfessionStore {
    records: HashMap<u64, GuildConfessionRecord>,
}

impl GuildConfessionStore {
    /// The rows, keyed by guild.
    pub closed spec fn table(&self) -> Map<u64, GuildConfessionRecord> {
        self.records@
    }

    /// Every row carries the guild it is keyed under.
    pub open spec fn wf(&self) -> bool {
        forall|g: u64| self.table().contains_key(g) ==> (#[trigger] self.table()[g]).guild_id == g
    }

    /// An empty store.
    pub fn new() -> (r: GuildConfessionStore)
        ensures
            r.wf(),
            r.table() == Map::<u64, GuildConfessionRecord>::empty(),
    {
        GuildConfessionStore { records: HashMap::new() }
    }

    /// Upserts a guild's row under the guild it names.
    pub fn set_guild_confessions(&mut self, record: GuildConfessionRecord)
        requires
            old(self).wf(),
        ensures
            final(self).wf(),
            final(self).table() == old(self).table().insert(record.guild_id, record),
    {
        self.records.insert(record.guild_id, record);
        proof {
            lemma_row_keys_after_insert(
                old(self).table(),
                self.table(),
                record.guild_id,
                record,
            );
        }
    }

    /// Sets a guild's salt outright, keeping its shuffle lock (clear on a
    /// guild not yet seen).
    pub fn set_guild_hash(&mut self, guild_id: u64, hash: u64) -> (r: GuildConfessionRecord)
        requires
            old(self).wf(),
        ensures
            final(self).wf(),
            ({
                let pre = old(self).table();
                &&& r.guild_id == guild_id && r.hash == hash
                &&& r.lock_shuffle == (pre.contains_key(guild_id) && pre[guild_id].lock_shuffle)
                &&& final(self).table() == pre.insert(guild_id, r)
            }),
    {
        let lock_shuffle = match self.records.get(&guild_id) {
            Some(existing) => existing.lock_shuffle,
            None => false,
        };
        let record = GuildConfessionRecord { guild_id, hash, lock_shuffle };
        self.records.insert(guild_id, record);
        proof {
            lemma_row_keys_after_insert(old(self).table(), self.table(), guild_id, record);
        }
        record
    }

    /// The guild's row, created with a fresh random salt and an open lock if
    /// the guild was never seen.
    pub fn get_or_new_guild_confessions(&mut self, guild_id: u64) -> (r: GuildConfessionRecord)
        requires
            old(self).wf(),
        ensures
            final(self).wf(),
            r.guild_id == guild_id,
            final(self).table().contains_key(guild_id),
            final(self).table()[guild_id] == r,
            old(self).table().contains_key(guild_id) ==> r == old(self).table()[guild_id]
                && final(self).table() == old(self).table(),
            !old(self).table().contains_key(guild_id) ==> r.lock_shuffle == false
                && final(self).table() == old(self).table().insert(guild_id, r),
    {
        match self.records.get(&guild_id) {
            Some(existing) => {
                let found = *existing;
                proof {
                    assert(self.table().contains_key(guild_id));
                    assert(self.table()[guild_id] == found);
                    assert(found.guild_id == guild_id);
                }
                found
            },
            None => {
                let record = GuildConfessionRecord {
                    guild_id,
                    hash: random_salt(),
                    lock_shuffle: false,
                };
                self.records.insert(guild_id, record);
                proof {
                    lemma_row_keys_after_insert(
                        old(self).table(),
                        self.table(),
                        guild_id,
                        record,
                    );
                }
                record
            },
        }
    }

    /// The guild's current salt, created lazily on first use.
    pub fn get_guild_confession_hash(&mut self, guild_id: u64) -> (r: u64)
        requires
            old(self).wf(),
        ensures
            final(self).wf(),
            ({
                let pre = old(self).table();
                let post = final(self).table();
                &&& post.contains_key(guild_id) && r == post[guild_id].hash
                &&& pre.contains_key(guild_id) ==> r == pre[guild_id].hash && post == pre
                &&& !pre.contains_key(guild_id) ==> post == pre.insert(guild_id, post[guild_id])
                    && post[guild_id].lock_shuffle == false
            }),
    {
        let record = self.get_or_new_guild_confessions(guild_id);
        record.hash
    }

    /// Replaces the guild's salt with a fresh random one, invalidating every
    /// tag previously shown for the guild. Refused while the guild's shuffle
    /// lock is set; rows of other guilds are never touched.
    pub fn shuffle_guild_hash(&mut self, guild_id: u64) -> (r: Result<
        GuildConfessionRecord,
        ConfessError,
    >)
        requires
            old(self).wf(),
        ensures
            final(self).wf(),
            ({
                let pre = old(self).table();
                let post = final(self).table();
                let locked = pre.contains_key(guild_id) && pre[guild_id].lock_shuffle;
                &&& locked ==> r == Err::<GuildConfessionRecord, ConfessError>(
                    ConfessError::Conflict,
                ) && post == pre
                &&& !locked ==> match r {
                    Ok(rec) => rec.guild_id == guild_id && rec.lock_shuffle == false && post
                        == pre.insert(guild_id, rec),
                    Err(_) => false,
                }
            }),
    {
        let existing = self.get_or_new_guild_confessions(guild_id);
        if existing.lock_shuffle {
            return Err(ConfessError::Conflict);
        }
        let record = GuildConfessionRecord { guild_id, hash: random_salt(), lock_shuffle: false };
        let ghost mid = self.table();
        self.records.insert(guild_id, record);
        proof {
            lemma_row_keys_after_insert(mid, self.table(), guild_id, record);
            assert(self.table() =~= old(self).table().insert(guild_id, record));
        }
        Ok(record)
    }

    /// Sets the guild's shuffle lock, creating the row first if need be.
    pub fn set_guild_shuffle_lock(&mut self, guild_id: u64, lock_shuffle: bool) -> (r:
        GuildConfessionRecord)
        requires
            old(self).wf(),
        ensures
            final(self).wf(),
            ({
                let pre = old(self).table();
                &&& r.guild_id == guild_id && r.lock_shuffle == lock_shuffle
                &&& final(self).table() == pre.insert(guild_id, r)
                &&& pre.contains_key(guild_id) ==> r.hash == pre[guild_id].hash
            }),
    {
        let existing = self.get_or_new_guild_confessions(guild_id);
        let record = GuildConfessionRecord { guild_id, hash: existing.hash, lock_shuffle };
        let ghost mid = self.table();
        self.records.insert(guild_id, record);
        proof {
            lemma_row_keys_after_insert(mid, self.table(), guild_id, record);
            assert(self.table() =~= old(self).table().insert(guild_id, record));
        }
        record
    }

    /// Whether the guild's shuffle lock is set, creating the row first if
    /// need be.
    pub fn get_guild_shuffle_lock(&mut self, guild_id: u64) -> (r: bool)
        requires
            old(self).wf(),
        ensures
            final(self).wf(),
            ({
                let pre = old(self).table();
                let post = final(self).table();
                &&& post.contains_key(guild_id) && r == post[guild_id].lock_shuffle
                &&& pre.contains_key(guild_id) ==> post == pre && r
                    == pre[guild_id].lock_shuffle
                &&& !pre.contains_key(guild_id) ==> r == false
            }),
    {
        let record = self.get_or_new_guild_confessions(guild_id);
        record.lock_shuffle
    }
}

/// Law: a shuffle of guild `g` leaves every other guild's row — and so every
/// tag derived under that guild's salt — exactly as it was.
pub proof fn lemma_shuffle_preserves_other_guilds(
    pre: Map<u64, GuildConfessionRecord>,
    post: Map<u64, GuildConfessionRecord>,
    g: u64,
    rec: GuildConfessionRecord,
    g2: u64,
    member: u64,
)
    requires
        post == pre.insert(g, rec),
        g2 != g,
        pre.contains_key(g2),
    ensures
        post.contains_key(g2),
        post[g2] == pre[g2],
        derive_tag(post[g2].hash, member) == derive_tag(pre[g2].hash, member),
{
}

} // verus!
