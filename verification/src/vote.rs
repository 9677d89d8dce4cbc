//! Reveal vote coordinator: a time-boxed, quorum-gated ballot among the
//! guild's moderators deciding whether to unmask the member behind a display
//! tag. Eligibility is snapshotted when the vote opens; one ballot per voter,
//! first ballot wins; the verdict is computed when the window closes.

use vstd::prelude::*;

use crate::auth::contains_id;
use crate::error::ConfessError;
use crate::pseudonym::{derive_tag, get_hash_from_user};

verus! {

/// The most "for" ballots a verdict can require, however large the guild.
pub const MOD_MAX_VOTES: usize = 5;

/// The quorum for `n` eligible voters: half of them, rounded toward zero,
/// clamped to `[1, MOD_MAX_VOTES]`.
pub open spec fn spec_quorum(n: nat) -> nat {
    if n / 2 < 1 {
        1
    } else if n / 2 > 5 {
        5
    } else {
        n / 2
    }
}

/// The number of "for" ballots that must be exceeded for a reveal.
pub fn quorum(eligible_count: usize) -> (r: usize)
    ensures
        r == spec_quorum(eligible_count as nat),
        1 <= r <= 5,
{
    let half = eligible_count / 2;
    if half < 1 {
        1
    } else if half > MOD_MAX_VOTES {
        MOD_MAX_VOTES
    } else {
        half
    }
}

/// Whether the ballots carry the reveal: strictly more "for" ballots than the
/// quorum, at least one of them, and strictly more for than against.
pub open spec fn spec_verdict(votes_for: nat, votes_against: nat, quorum: nat) -> bool {
    votes_for > quorum && votes_for > 0 && votes_for > votes_against
}

/// Computes the verdict from a tally.
pub fn verdict(votes_for: usize, votes_against: usize, quorum: usize) -> (r: bool)
    ensures
        r == spec_verdict(votes_for as nat, votes_against as nat, quorum as nat),
{
    votes_for > quorum && votes_for > 0 && votes_for > votes_against
}

/// The first member whose tag under `salt` is `tag`, if any. Distinct members
/// may collide in the 24-bit tag space; resolution deliberately keeps the
/// first match.
pub open spec fn spec_first_match(members: Seq<u64>, salt: u64, tag: u32) -> Option<u64>
    decreases members.len(),
{
    if members.len() == 0 {
        None
    } else if derive_tag(salt, members[0]) == tag {
        Some(members[0])
    } else {
        spec_first_match(members.drop_first(), salt, tag)
    }
}

proof fn lemma_first_match_at(members: Seq<u64>, salt: u64, tag: u32, k: int)
    requires
        0 <= k < members.len(),
        derive_tag(salt, members[k]) == tag,
        forall|j: int| 0 <= j < k ==> derive_tag(salt, members[j]) != tag,
    ensures
        spec_first_match(members, salt, tag) == Some(members[k]),
    decreases k,
{
    if k > 0 {
        assert(members.drop_first()[k - 1] == members[k]);
        lemma_first_match_at(members.drop_first(), salt, tag, k - 1);
    }
}

proof fn lemma_first_match_none(members: Seq<u64>, salt: u64, tag: u32)
    requires
        forall|j: int| 0 <= j < members.len() ==> derive_tag(salt, members[j]) != tag,
    ensures
        spec_first_match(members, salt, tag) is None,
    decreases members.len(),
{
    if members.len() > 0 {
        lemma_first_match_none(members.drop_first(), salt, tag);
    }
}

/// Scans the guild's members in order and resolves `tag` to the first member
/// it derives for under `salt`; `NotFound` when no member matches.
pub fn resolve_subject(members: &Vec<u64>, salt: u64, tag: u32) -> (r: Result<u64, ConfessError>)
    ensures
        match spec_first_match(members@, salt, tag) {
            Some(id) => r == Ok::<u64, ConfessError>(id),
            None => r == Err::<u64, ConfessError>(ConfessError::NotFound),
        },
{
    let n = members.len();
    let mut i: usize = 0;
    while i < n
        invariant
            n == members@.len(),
            0 <= i <= n,
            forall|j: int| 0 <= j < i ==> derive_tag(salt, members@[j]) != tag,
        decreases n - i,
    {
        if get_hash_from_user(salt, members[i]) == tag {
            proof {
                lemma_first_match_at(members@, salt, tag, i as int);
            }
            return Ok(members[i]);
        }
        i = i + 1;
    }
    proof {
        lemma_first_match_none(members@, salt, tag);
    }
    Err(ConfessError::NotFound)
}

/// One recorded ballot: the voter and their choice, `true` for reveal.
#[derive(Clone, Copy, Debug, PartialEq, Eq, Structural)]
pub struct Ballot {
    pub voter: u64,
    pub choice: bool,
}

/// Whether `voter` already has a ballot in `s`.
pub open spec fn spec_has_ballot(s: Seq<Ballot>, voter: u64) -> bool {
    exists|i: int| 0 <= i < s.len() && (#[trigger] s[i]).voter == voter
}

/// The "for" ballots of `s`.
pub open spec fn spec_tally_for(s: Seq<Ballot>) -> nat {
    s.filter(|b: Ballot| b.choice).len()
}

/// The "against" ballots of `s`.
pub open spec fn spec_tally_against(s: Seq<Ballot>) -> nat {
    s.filter(|b: Ballot| !b.choice).len()
}

/// An open reveal vote: the tag under question, the member it resolved to
/// when the vote opened, the voters eligible at that moment, and the ballots
/// recorded so far in arrival order.
pub struct VoteSession {
    subject_tag: u32,
    subject_id: u64,
    eligible_voters: Vec<u64>,
    ballots: Vec<Ballot>,
}

/// What one inbound ballot activation came to.
#[derive(Clone, Copy, Debug, PartialEq, Eq, Structural)]
pub enum BallotOutcome {
    /// The actor was not eligible when the vote opened; nothing is recorded.
    NotEligible,
    /// The ballot was recorded; `total` distinct voters have now cast.
    Recorded { total: usize },
    /// The voter had already cast; their first ballot stands and the tally is
    /// unchanged. `total` distinct voters have cast.
    Repeat { total: usize },
}

impl VoteSession {
    /// The recorded ballots, in arrival order.
    pub closed spec fn ballots(&self) -> Seq<Ballot> {
        self.ballots@
    }

    /// The tag under question.
    pub closed spec fn tag(&self) -> u32 {
        self.subject_tag
    }

    /// The member the tag resolved to when the vote opened.
    pub closed spec fn subject(&self) -> u64 {
        self.subject_id
    }

    /// The eligibility snapshot taken when the vote opened.
    pub closed spec fn eligible(&self) -> Seq<u64> {
        self.eligible_voters@
    }

    /// At most one ballot per voter, every ballot from an eligible voter.
    pub open spec fn wf(&self) -> bool {
        &&& forall|i: int, j: int|
            0 <= i < j < self.ballots().len() ==> (#[trigger] self.ballots()[i]).voter != (
            #[trigger] self.ballots()[j]).voter
        &&& forall|i: int|
            0 <= i < self.ballots().len() ==> self.eligible().contains(
                (#[trigger] self.ballots()[i]).voter,
            )
    }

    /// The member the tag resolved to when the vote opened.
    pub fn subject_id(&self) -> (r: u64)
        ensures
            r == self.subject(),
    {
        self.subject_id
    }

    /// The tag under question.
    pub fn subject_tag(&self) -> (r: u32)
        ensures
            r == self.tag(),
    {
        self.subject_tag
    }

    /// Opens a session over a resolved subject with no ballots cast.
    pub fn open(subject_tag: u32, subject_id: u64, eligible_voters: Vec<u64>) -> (r: VoteSession)
        ensures
            r.wf(),
            r.tag() == subject_tag,
            r.subject() == subject_id,
            r.eligible() == eligible_voters@,
            r.ballots() == Seq::<Ballot>::empty(),
    {
        VoteSession { subject_tag, subject_id, eligible_voters, ballots: Vec::new() }
    }

    /// Whether `voter` has a recorded ballot.
    fn has_voted(&self, voter: u64) -> (r: bool)
        ensures
            r == spec_has_ballot(self.ballots(), voter),
    {
        let n = self.ballots.len();
        let mut i: usize = 0;
        while i < n
            invariant
                n == self.ballots().len(),
                0 <= i <= n,
                forall|j: int| 0 <= j < i ==> (#[trigger] self.ballots()[j]).voter != voter,
            decreases n - i,
        {
            if self.ballots[i].voter == voter {
                assert(self.ballots()[i as int].voter == voter);
                return true;
            }
            i = i + 1;
        }
        false
    }

    /// Takes one ballot activation. A non-eligible actor is ignored; a
    /// voter's first ballot is recorded; any later activation by the same
    /// voter changes nothing — first ballot wins.
    pub fn cast_ballot(&mut self, voter: u64, choice: bool) -> (r: BallotOutcome)
        requires
            old(self).wf(),
        ensures
            final(self).wf(),
            final(self).tag() == old(self).tag(),
            final(self).subject() == old(self).subject(),
            final(self).eligible() == old(self).eligible(),
            !old(self).eligible().contains(voter) ==> r == BallotOutcome::NotEligible
                && final(self).ballots() == old(self).ballots(),
            old(self).eligible().contains(voter) && spec_has_ballot(
                old(self).ballots(),
                voter,
            ) ==> r == (BallotOutcome::Repeat { total: old(self).ballots().len() as usize })
                && final(self).ballots() == old(self).ballots(),
            old(self).eligible().contains(voter) && !spec_has_ballot(
                old(self).ballots(),
                voter,
            ) ==> r == (BallotOutcome::Recorded { total: (old(self).ballots().len() + 1) as usize })
                && final(self).ballots() == old(self).ballots().push(Ballot { voter, choice }),
    {
        if !contains_id(&self.eligible_voters, voter) {
            return BallotOutcome::NotEligible;
        }
        if self.has_voted(voter) {
            return BallotOutcome::Repeat { total: self.ballots.len() };
        }
        self.ballots.push(Ballot { voter, choice });
        BallotOutcome::Recorded { total: self.ballots.len() }
    }

    /// The voters recorded for the choice `choice`, in arrival order, for the
    /// tally summary.
    #[verifier::loop_isolation(false)]
    pub fn voters_with_choice(&self, choice: bool) -> (r: Vec<u64>)
        ensures
            r@ == self.ballots().filter(|b: Ballot| b.choice == choice).map_values(
                |b: Ballot| b.voter,
            ),
    {
        let pred = Ghost(|b: Ballot| b.choice == choice);
        let f = Ghost(|b: Ballot| b.voter);
        let n = self.ballots.len();
        let mut out: Vec<u64> = Vec::new();
        let mut i: usize = 0;
        while i < n
            invariant
                0 <= i <= n,
                out@ == self.ballots().take(i as int).filter(pred@).map_values(f@),
            decreases n - i,
        {
            proof {
                broadcast use Seq::lemma_filter_push;
                broadcast use Seq::lemma_push_map_commute;

                assert(self.ballots().take(i as int + 1).drop_last() =~= self.ballots().take(
                    i as int,
                ));
                assert(self.ballots().take(i as int + 1) =~= self.ballots().take(i as int).push(
                    self.ballots()[i as int],
                ));
            }
            if self.ballots[i].choice == choice {
                out.push(self.ballots[i].voter);
                proof {
                    assert(out@ =~= self.ballots().take(i as int + 1).filter(pred@).map_values(f@));
                }
            }
            i = i + 1;
        }
        proof {
            assert(self.ballots().take(n as int) =~= self.ballots());
        }
        out
    }

    /// The running count of distinct voters who have cast.
    pub fn total_votes(&self) -> (r: usize)
        ensures
            r == self.ballots().len(),
    {
        self.ballots.len()
    }

    /// Counts the recorded ballots: `(for, against)`.
    #[verifier::loop_isolation(false)]
    pub fn tally(&self) -> (r: (usize, usize))
        ensures
            r.0 == spec_tally_for(self.ballots()),
            r.1 == spec_tally_against(self.ballots()),
    {
        let for_pred = Ghost(|b: Ballot| b.choice);
        let against_pred = Ghost(|b: Ballot| !b.choice);
        let n = self.ballots.len();
        let mut votes_for: usize = 0;
        let mut votes_against: usize = 0;
        let mut i: usize = 0;
        while i < n
            invariant
                0 <= i <= n,
                votes_for == self.ballots().take(i as int).filter(for_pred@).len(),
                votes_against == self.ballots().take(i as int).filter(against_pred@).len(),
                votes_for + votes_against <= i,
            decreases n - i,
        {
            proof {
                broadcast use Seq::lemma_filter_push;
                broadcast use Seq::lemma_filter_len;

                assert(self.ballots().take(i as int + 1).drop_last() =~= self.ballots().take(
                    i as int,
                ));
                assert(self.ballots().take(i as int + 1) =~= self.ballots().take(i as int).push(
                    self.ballots()[i as int],
                ));
            }
            if self.ballots[i].choice {
                votes_for = votes_for + 1;
            } else {
                votes_against = votes_against + 1;
            }
            i = i + 1;
        }
        proof {
            assert(self.ballots().take(n as int) =~= self.ballots());
        }
        (votes_for, votes_against)
    }
}

/// How a closed vote ended: the tally, the quorum it faced, the verdict, and
/// the identity to publish — present exactly when the verdict is to reveal.
pub struct VoteOutcome {
    pub votes_for: usize,
    pub votes_against: usize,
    pub quorum: usize,
    pub reveal: bool,
    pub revealed_id: Option<u64>,
}

impl VoteSession {
    /// Closes the window: tallies the ballots, computes the quorum from the
    /// eligibility snapshot, and decides. The subject's identity is given out
    /// exactly when the verdict is to reveal.
    pub fn close(&self) -> (r: VoteOutcome)
        ensures
            r.votes_for == spec_tally_for(self.ballots()),
            r.votes_against == spec_tally_against(self.ballots()),
            r.quorum == spec_quorum(self.eligible().len()),
            r.reveal == spec_verdict(r.votes_for as nat, r.votes_against as nat, r.quorum as nat),
            r.revealed_id == if r.reveal {
                Some(self.subject())
            } else {
                None::<u64>
            },
    {
        let (votes_for, votes_against) = self.tally();
        let needed = quorum(self.eligible_voters.len());
        let reveal = verdict(votes_for, votes_against, needed);
        VoteOutcome {
            votes_for,
            votes_against,
            quorum: needed,
            reveal,
            revealed_id: if reveal {
                Some(self.subject_id)
            } else {
                None
            },
        }
    }
}

/// Opens a reveal vote over `subject_tag`. The opener must be one of the
/// eligible voters; the tag must resolve to a member under the guild's
/// current salt, else `NotFound` and no session exists.
pub fn open_vote(
    subject_tag: u32,
    opener: u64,
    eligible_voters: Vec<u64>,
    members: &Vec<u64>,
    salt: u64,
) -> (r: Result<VoteSession, ConfessError>)
    ensures
        !eligible_voters@.contains(opener) ==> r == Err::<VoteSession, ConfessError>(
            ConfessError::Unauthorized,
        ),
        eligible_voters@.contains(opener) ==> match spec_first_match(members@, salt, subject_tag) {
            Some(id) => match r {
                Ok(session) => {
                    &&& session.wf()
                    &&& session.tag() == subject_tag
                    &&& session.subject() == id
                    &&& session.eligible() == eligible_voters@
                    &&& session.ballots() == Seq::<Ballot>::empty()
                },
                Err(_) => false,
            },
            None => r == Err::<VoteSession, ConfessError>(ConfessError::NotFound),
        },
{
    if !contains_id(&eligible_voters, opener) {
        return Err(ConfessError::Unauthorized);
    }
    let subject_id = match resolve_subject(members, salt, subject_tag) {
        Ok(id) => id,
        Err(e) => {
            return Err(e);
        },
    };
    Ok(VoteSession::open(subject_tag, subject_id, eligible_voters))
}

} // verus!
