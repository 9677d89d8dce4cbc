//! Channel role registry: a durable mapping from (guild, channel) to the use
//! the channel was assigned. Within a guild at most one channel may carry the
//! `Vetting` role; that uniqueness is enforced by the checked setter here, not
//! by the store itself.

use vstd::prelude::*;

use crate::auth::{authorize, spec_authorized, Auth, Member};
use crate::error::ConfessError;

verus! {

/// What a channel is used for.
#[derive(Clone, Copy, Debug, PartialEq, Eq, Structural)]
pub enum ChannelUse {
    /// No assigned use.
    Unused,
    /// Accepts confession submissions.
    Confession,
    /// The single channel where pending confessions are reviewed.
    Vetting,
}

/// How a stored integer column reads back as a channel use; unknown values
/// fall back to `Unused`.
pub open spec fn channel_use_from_i32(i: i32) -> ChannelUse {
    if i == 1 {
        ChannelUse::Confession
    } else if i == 2 {
        ChannelUse::Vetting
    } else {
        ChannelUse::Unused
    }
}

/// How a channel use is stored as an integer column.
pub open spec fn channel_use_to_i32(u: ChannelUse) -> i32 {
    match u {
        ChannelUse::Unused => 0,
        ChannelUse::Confession => 1,
        ChannelUse::Vetting => 2,
    }
}

impl ChannelUse {
    /// The integer column value this use is stored as.
    pub fn as_i32(&self) -> (r: i32)
        ensures
            r == channel_use_to_i32(*self),
    {
        match self {
            ChannelUse::Unused => 0,
            ChannelUse::Confession => 1,
            ChannelUse::Vetting => 2,
        }
    }
}

impl From<i32> for ChannelUse {
    fn from(i: i32) -> (r: ChannelUse) {
        if i == 1 {
            ChannelUse::Confession
        } else if i == 2 {
            ChannelUse::Vetting
        } else {
            ChannelUse::Unused
        }
    }
}

impl vstd::std_specs::convert::FromSpecImpl<i32> for ChannelUse {
    open spec fn obeys_from_spec() -> bool {
        true
    }

    open spec fn from_spec(i: i32) -> ChannelUse {
        channel_use_from_i32(i)
    }
}

/// One registry row: a channel, the guild it belongs to, and its use.
#[derive(Clone, Copy, Debug, PartialEq, Eq, Structural)]
pub struct ChannelEntry {
    pub id: u64,
    pub guild_id: u64,
    pub channel_use: ChannelUse,
}

/// The first row whose channel id is `channel_id`, if any.
pub open spec fn find_entry(s: Seq<ChannelEntry>, channel_id: u64) -> Option<ChannelEntry>
    decreases s.len(),
{
    if s.len() == 0 {
        None
    } else if s[0].id == channel_id {
        Some(s[0])
    } else {
        find_entry(s.drop_first(), channel_id)
    }
}

/// The use recorded for `channel_id` within `guild_id`; `Unused` when the
/// channel is absent or belongs to another guild.
pub open spec fn spec_role(s: Seq<ChannelEntry>, guild_id: u64, channel_id: u64) -> ChannelUse {
    match find_entry(s, channel_id) {
        Some(e) => if e.guild_id == guild_id {
            e.channel_use
        } else {
            ChannelUse::Unused
        },
        None => ChannelUse::Unused,
    }
}

/// Whether some row of `s` assigns use `u` to a channel of `guild_id`.
pub open spec fn spec_has_use(s: Seq<ChannelEntry>, guild_id: u64, u: ChannelUse) -> bool {
    exists|i: int|
        0 <= i < s.len() && (#[trigger] s[i]).guild_id == guild_id && s[i].channel_use == u
}

proof fn lemma_find_entry_at(s: Seq<ChannelEntry>, channel_id: u64, k: int)
    requires
        0 <= k < s.len(),
        s[k].id == channel_id,
        forall|j: int| 0 <= j < k ==> s[j].id != channel_id,
    ensures
        find_entry(s, channel_id) == Some(s[k]),
    decreases k,
{
    if k > 0 {
        assert(s.drop_first()[k - 1] == s[k]);
        lemma_find_entry_at(s.drop_first(), channel_id, k - 1);
    }
}

proof fn lemma_find_entry_none(s: Seq<ChannelEntry>, channel_id: u64)
    requires
        forall|j: int| 0 <= j < s.len() ==> s[j].id != channel_id,
    ensures
        find_entry(s, channel_id) is None,
    decreases s.len(),
{
    if s.len() > 0 {
        lemma_find_entry_none(s.drop_first(), channel_id);
    }
}

proof fn lemma_find_entry_update_other(s: Seq<ChannelEntry>, k: int, e: ChannelEntry, c: u64)
    requires
        0 <= k < s.len(),
        s[k].id == e.id,
        c != e.id,
    ensures
        find_entry(s.update(k, e), c) == find_entry(s, c),
    decreases k,
{
    let t = s.update(k, e);
    assert(t.len() == s.len());
    if k == 0 {
        assert(t[0] == e);
        assert(t.drop_first() =~= s.drop_first());
    } else {
        assert(t[0] == s[0]);
        if s[0].id != c {
            assert(t.drop_first() =~= s.drop_first().update(k - 1, e));
            lemma_find_entry_update_other(s.drop_first(), k - 1, e, c);
        }
    }
}

proof fn lemma_find_entry_push_other(s: Seq<ChannelEntry>, e: ChannelEntry, c: u64)
    requires
        c != e.id,
    ensures
        find_entry(s.push(e), c) == find_entry(s, c),
    decreases s.len(),
{
    let t = s.push(e);
    if s.len() == 0 {
        assert(t[0] == e);
        assert(t.drop_first() =~= s);
        assert(find_entry(t, c) == find_entry(s, c));
    } else {
        assert(t[0] == s[0]);
        if s[0].id == c {
            assert(find_entry(t, c) == Some(t[0]));
            assert(find_entry(s, c) == Some(s[0]));
        } else {
            assert(t.drop_first() =~= s.drop_first().push(e));
            lemma_find_entry_push_other(s.drop_first(), e, c);
            assert(find_entry(t, c) == find_entry(t.drop_first(), c));
            assert(find_entry(s, c) == find_entry(s.drop_first(), c));
        }
    }
}

/// The channel role registry.
pub struct ChannelRegistry {
    entries: Vec<ChannelEntry>,
}

impl ChannelRegistry {
    /// The rows of the registry, in insertion order.
    pub closed spec fn rows(&self) -> Seq<ChannelEntry> {
        self.entries@
    }

    /// Each channel id appears in at most one row.
    pub open spec fn wf(&self) -> bool {
        forall|i: int, j: int|
            0 <= i < j < self.rows().len() ==> (#[trigger] self.rows()[i]).id != (
            #[trigger] self.rows()[j]).id
    }

    /// An empty registry.
    pub fn new() -> (r: ChannelRegistry)
        ensures
            r.wf(),
            r.rows() == Seq::<ChannelEntry>::empty(),
    {
        ChannelRegistry { entries: Vec::new() }
    }

    /// All rows, for listing.
    pub fn channels(&self) -> (r: &Vec<ChannelEntry>)
        ensures
            r@ == self.rows(),
    {
        &self.entries
    }

    /// The index of the row for `channel_id`, if one exists.
    fn find_index(&self, channel_id: u64) -> (r: Option<usize>)
        ensures
            match r {
                Some(k) => k < self.rows().len() && self.rows()[k as int].id == channel_id
                    && find_entry(self.rows(), channel_id) == Some(self.rows()[k as int]),
                None => find_entry(self.rows(), channel_id) is None && forall|j: int|
                    0 <= j < self.rows().len() ==> (#[trigger] self.rows()[j]).id != channel_id,
            },
    {
        let n = self.entries.len();
        let mut i: usize = 0;
        while i < n
            invariant
                n == self.rows().len(),
                0 <= i <= n,
                forall|j: int| 0 <= j < i ==> (#[trigger] self.rows()[j]).id != channel_id,
            decreases n - i,
        {
            if self.entries[i].id == channel_id {
                proof {
                    lemma_find_entry_at(self.rows(), channel_id, i as int);
                }
                return Some(i);
            }
            i = i + 1;
        }
        proof {
            lemma_find_entry_none(self.rows(), channel_id);
        }
        None
    }

    /// The use recorded for `channel_id` within `guild_id`; `Unused` when the
    /// channel is absent or registered under another guild.
    pub fn get_channel_use(&self, guild_id: u64, channel_id: u64) -> (r: ChannelUse)
        ensures
            r == spec_role(self.rows(), guild_id, channel_id),
    {
        match self.find_index(channel_id) {
            Some(k) => {
                let e = self.entries[k];
                if e.guild_id == guild_id {
                    e.channel_use
                } else {
                    ChannelUse::Unused
                }
            },
            None => ChannelUse::Unused,
        }
    }

    /// The rows registered under `guild_id`.
    #[verifier::loop_isolation(false)]
    pub fn get_channels_in_guild(&self, guild_id: u64) -> (r: Vec<ChannelEntry>)
        ensures
            r@ == self.rows().filter(|e: ChannelEntry| e.guild_id == guild_id),
    {
        let pred = Ghost(|e: ChannelEntry| e.guild_id == guild_id);
        let n = self.entries.len();
        let mut out: Vec<ChannelEntry> = Vec::new();
        let mut i: usize = 0;
        while i < n
            invariant
                n == self.rows().len(),
                0 <= i <= n,
                out@ == self.rows().take(i as int).filter(pred@),
            decreases n - i,
        {
            let e = self.entries[i];
            proof {
                broadcast use vstd::seq_lib::group_seq_properties;

                assert(self.rows().take(i as int + 1).drop_last() =~= self.rows().take(i as int));
                assert(self.rows().take(i as int + 1) =~= self.rows().take(i as int).push(e));
                Seq::lemma_filter_push(self.rows().take(i as int), e, pred@);
            }
            if e.guild_id == guild_id {
                out.push(e);
            }
            i = i + 1;
        }
        proof {
            assert(self.rows().take(n as int) =~= self.rows());
        }
        out
    }

    /// The rows of `guild_id` whose use is `channel_use`.
    #[verifier::loop_isolation(false)]
    pub fn get_channels_in_guild_with_use(&self, guild_id: u64, channel_use: ChannelUse) -> (r:
        Vec<ChannelEntry>)
        ensures
            r@ == self.rows().filter(
                |e: ChannelEntry| e.guild_id == guild_id && e.channel_use == channel_use,
            ),
    {
        let pred = Ghost(|e: ChannelEntry| e.guild_id == guild_id && e.channel_use == channel_use);
        let n = self.entries.len();
        let mut out: Vec<ChannelEntry> = Vec::new();
        let mut i: usize = 0;
        while i < n
            invariant
                n == self.rows().len(),
                0 <= i <= n,
                out@ == self.rows().take(i as int).filter(pred@),
            decreases n - i,
        {
            let e = self.entries[i];
            proof {
                assert(self.rows().take(i as int + 1).drop_last() =~= self.rows().take(i as int));
                assert(self.rows().take(i as int + 1) =~= self.rows().take(i as int).push(e));
                Seq::lemma_filter_push(self.rows().take(i as int), e, pred@);
            }
            if e.guild_id == guild_id && e.channel_use == channel_use {
                out.push(e);
            }
            i = i + 1;
        }
        proof {
            assert(self.rows().take(n as int) =~= self.rows());
        }
        out
    }

    /// Whether some channel of `guild_id` carries use `channel_use`.
    pub fn has_channel_with_use(&self, guild_id: u64, channel_use: ChannelUse) -> (r: bool)
        ensures
            r == spec_has_use(self.rows(), guild_id, channel_use),
    {
        let n = self.entries.len();
        let mut i: usize = 0;
        while i < n
            invariant
                n == self.rows().len(),
                0 <= i <= n,
                forall|j: int|
                    0 <= j < i ==> !((#[trigger] self.rows()[j]).guild_id == guild_id
                        && self.rows()[j].channel_use == channel_use),
            decreases n - i,
        {
            let e = self.entries[i];
            if e.guild_id == guild_id && e.channel_use == channel_use {
                assert(self.rows()[i as int].guild_id == guild_id);
                return true;
            }
            i = i + 1;
        }
        false
    }

    /// Upserts the row for `channel_id`: the channel now belongs to
    /// `guild_id` with use `channel_use`; every other channel's row is
    /// untouched.
    pub fn add_channel_for_guild(
        &mut self,
        guild_id: u64,
        channel_id: u64,
        channel_use: ChannelUse,
    )
        requires
            old(self).wf(),
        ensures
            final(self).wf(),
            find_entry(final(self).rows(), channel_id) == Some(
                ChannelEntry { id: channel_id, guild_id, channel_use },
            ),
            forall|c: u64|
                c != channel_id ==> #[trigger] find_entry(final(self).rows(), c) == find_entry(
                    old(self).rows(),
                    c,
                ),
    {
        let e = ChannelEntry { id: channel_id, guild_id, channel_use };
        match self.find_index(channel_id) {
            Some(k) => {
                let ghost s = self.rows();
                self.entries.set(k, e);
                proof {
                    assert(self.rows() =~= s.update(k as int, e));
                    lemma_find_entry_at(self.rows(), channel_id, k as int);
                    assert forall|c: u64| c != channel_id implies #[trigger] find_entry(
                        self.rows(),
                        c,
                    ) == find_entry(s, c) by {
                        lemma_find_entry_update_other(s, k as int, e, c);
                    }
                }
            },
            None => {
                let ghost s = self.rows();
                self.entries.push(e);
                proof {
                    assert(self.rows() =~= s.push(e));
                    lemma_find_entry_at(self.rows(), channel_id, s.len() as int);
                    assert forall|c: u64| c != channel_id implies #[trigger] find_entry(
                        self.rows(),
                        c,
                    ) == find_entry(s, c) by {
                        lemma_find_entry_push_other(s, e, c);
                    }
                }
            },
        }
    }

    /// The one way a command assigns a channel use. The actor must hold
    /// channel management; assigning `Vetting` is refused with `Conflict`
    /// while any channel of the guild already carries it, so a guild never
    /// gains a second vetting channel.
    pub fn set_channel(
        &mut self,
        actor: &Member,
        admin_roles: &Vec<u64>,
        guild_id: u64,
        channel_id: u64,
        channel_use: ChannelUse,
    ) -> (r: Result<(), ConfessError>)
        requires
            old(self).wf(),
        ensures
            final(self).wf(),
            ({
                let authorized = spec_authorized(
                    actor.user_id,
                    actor.roles@,
                    admin_roles@,
                    Auth::Admin,
                );
                let conflict = channel_use == ChannelUse::Vetting && spec_has_use(
                    old(self).rows(),
                    guild_id,
                    ChannelUse::Vetting,
                );
                &&& r == Ok::<(), ConfessError>(()) <==> authorized && !conflict
                &&& r == Err::<(), ConfessError>(ConfessError::Unauthorized) <==> !authorized
                &&& r == Err::<(), ConfessError>(ConfessError::Conflict) <==> authorized
                    && conflict
                &&& r is Err ==> final(self).rows() == old(self).rows()
                &&& r is Ok ==> find_entry(final(self).rows(), channel_id) == Some(
                    ChannelEntry { id: channel_id, guild_id, channel_use },
                ) && forall|c: u64|
                    c != channel_id ==> #[trigger] find_entry(final(self).rows(), c) == find_entry(
                        old(self).rows(),
                        c,
                    )
            }),
    {
        if !authorize(actor, admin_roles, Auth::Admin) {
            return Err(ConfessError::Unauthorized);
        }
        if matches!(channel_use, ChannelUse::Vetting) {
            if self.has_channel_with_use(guild_id, ChannelUse::Vetting) {
                return Err(ConfessError::Conflict);
            }
        }
        self.add_channel_for_guild(guild_id, channel_id, channel_use);
        Ok(())
    }
}

} // verus!
