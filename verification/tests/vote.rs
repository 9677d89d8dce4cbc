use confessions::button::{ballot_is_reveal, ConfessionRevealButton};
use confessions::error::ConfessError;
use confessions::pseudonym::get_hash_from_user;
use confessions::tag::{parse_tag, render_tag};
use confessions::vote::{
    open_vote, quorum, resolve_subject, verdict, BallotOutcome, VoteSession,
};

const SALT: u64 = 0xfeed;

#[test]
fn quorum_is_half_clamped_to_one_through_five() {
    let cases = [(1usize, 1usize), (2, 1), (3, 1), (9, 4), (10, 5), (11, 5)];
    for (eligible, expected) in cases {
        assert_eq!(quorum(eligible), expected);
    }
    assert_eq!(quorum(0), 1);
    assert_eq!(quorum(1000), 5);
}

#[test]
fn verdict_needs_for_votes_beyond_quorum_and_majority() {
    assert!(verdict(3, 1, 1));
    assert!(!verdict(1, 1, 1)); // a tie fails for > against
    assert!(!verdict(0, 0, 1)); // no "for" ballots, no reveal
    assert!(!verdict(0, 3, 1));
    assert!(!verdict(5, 0, 5)); // equal to the quorum is not beyond it
    assert!(verdict(6, 0, 5));
}

#[test]
fn subject_resolution_finds_the_first_matching_member() {
    let members = vec![10u64, 20, 30];
    let tag = get_hash_from_user(SALT, 20);
    // unless an earlier member collides, the subject is member 20
    if get_hash_from_user(SALT, 10) != tag {
        assert_eq!(resolve_subject(&members, SALT, tag), Ok(20));
    }
}

#[test]
fn subject_resolution_reports_not_found() {
    let members = vec![10u64, 20, 30];
    let tag = get_hash_from_user(SALT, 40);
    if members.iter().all(|m| get_hash_from_user(SALT, *m) != tag) {
        assert_eq!(resolve_subject(&members, SALT, tag), Err(ConfessError::NotFound));
    }
}

#[test]
fn parse_tag_reads_hex() {
    assert_eq!(parse_tag("0"), Some(0));
    assert_eq!(parse_tag("ff"), Some(255));
    assert_eq!(parse_tag("abc123"), Some(0xabc123));
    assert_eq!(parse_tag("ABC123"), Some(0xabc123));
    assert_eq!(parse_tag("ffffffff"), Some(u32::MAX));
    assert_eq!(parse_tag("0000ffffff"), Some(0xffffff));
}

#[test]
fn tags_render_as_six_hex_digits_and_parse_back() {
    assert_eq!(render_tag(0), "000000");
    assert_eq!(render_tag(0xffffff), "ffffff");
    assert_eq!(render_tag(0xabc123), "abc123");
    assert_eq!(render_tag(0x00012f), "00012f");
    for tag in [0u32, 1, 0x1234, 0xabcdef, 0xffffff] {
        assert_eq!(parse_tag(&render_tag(tag)), Some(tag));
    }
}

#[test]
fn parse_tag_rejects_junk() {
    assert_eq!(parse_tag(""), None);
    assert_eq!(parse_tag("xyz"), None);
    assert_eq!(parse_tag("12 34"), None);
    assert_eq!(parse_tag("-1"), None);
    assert_eq!(parse_tag("100000000"), None); // over 32 bits
}

#[test]
fn only_eligible_voters_are_counted() {
    let mut session = VoteSession::open(7, 99, vec![1, 2, 3]);
    assert_eq!(session.cast_ballot(50, true), BallotOutcome::NotEligible);
    assert_eq!(session.tally(), (0, 0));
    assert_eq!(session.cast_ballot(1, true), BallotOutcome::Recorded { total: 1 });
    assert_eq!(session.tally(), (1, 0));
}

#[test]
fn first_ballot_wins() {
    let mut session = VoteSession::open(7, 99, vec![1, 2, 3]);
    assert_eq!(session.cast_ballot(1, true), BallotOutcome::Recorded { total: 1 });
    // the same voter flips their choice and mashes the button: nothing moves
    assert_eq!(session.cast_ballot(1, false), BallotOutcome::Repeat { total: 1 });
    assert_eq!(session.cast_ballot(1, true), BallotOutcome::Repeat { total: 1 });
    assert_eq!(session.tally(), (1, 0));
    assert_eq!(session.total_votes(), 1);
    // a second voter still counts
    assert_eq!(session.cast_ballot(2, false), BallotOutcome::Recorded { total: 2 });
    assert_eq!(session.tally(), (1, 1));
    assert_eq!(session.voters_with_choice(true), vec![1]);
    assert_eq!(session.voters_with_choice(false), vec![2]);
}

#[test]
fn opening_requires_an_eligible_opener_and_a_resolvable_tag() {
    let members = vec![10u64, 20, 30];
    let mods = vec![10u64, 20];
    let tag = get_hash_from_user(SALT, 30);
    assert!(matches!(
        open_vote(tag, 999, mods.clone(), &members, SALT),
        Err(ConfessError::Unauthorized)
    ));
    let missing_tag = get_hash_from_user(SALT, 404);
    if members.iter().all(|m| get_hash_from_user(SALT, *m) != missing_tag) {
        assert!(matches!(
            open_vote(missing_tag, 10, mods.clone(), &members, SALT),
            Err(ConfessError::NotFound)
        ));
    }
    let session = open_vote(tag, 10, mods, &members, SALT).unwrap();
    if members[..2].iter().all(|m| get_hash_from_user(SALT, *m) != tag) {
        assert_eq!(session.subject_id(), 30);
    }
}

#[test]
fn ballot_payloads_map_to_choices() {
    assert!(ballot_is_reveal(&ConfessionRevealButton::RevealConfession(7).encode()));
    assert!(!ballot_is_reveal(&ConfessionRevealButton::KeepConfession.encode()));
    assert!(!ballot_is_reveal(&ConfessionRevealButton::Blank.encode()));
    assert!(!ballot_is_reveal(&vec![42u8, 42]));
}

#[test]
fn ten_moderators_six_for_two_against_reveals_the_subject() {
    let mods: Vec<u64> = (1..=10).collect();
    let members: Vec<u64> = (1..=10).chain([777]).collect();
    let tag = get_hash_from_user(SALT, 777);
    let earlier_collision = members[..10].iter().any(|m| get_hash_from_user(SALT, *m) == tag);
    let mut session = open_vote(tag, 1, mods, &members, SALT).unwrap();
    for voter in 1..=6u64 {
        assert_eq!(
            session.cast_ballot(voter, true),
            BallotOutcome::Recorded { total: voter as usize }
        );
    }
    for voter in 7..=8u64 {
        assert_eq!(
            session.cast_ballot(voter, false),
            BallotOutcome::Recorded { total: voter as usize }
        );
    }
    // voters 9 and 10 never cast; the window closes on the timer
    let outcome = session.close();
    assert_eq!(outcome.quorum, 5);
    assert_eq!(outcome.votes_for, 6);
    assert_eq!(outcome.votes_against, 2);
    assert!(outcome.reveal);
    assert_eq!(session.voters_with_choice(true), vec![1, 2, 3, 4, 5, 6]);
    assert_eq!(session.voters_with_choice(false), vec![7, 8]);
    if !earlier_collision {
        assert_eq!(outcome.revealed_id, Some(777));
    }
}

#[test]
fn a_tied_vote_keeps_the_subject_hidden() {
    let mut session = VoteSession::open(7, 99, vec![1, 2, 3]);
    session.cast_ballot(1, true);
    session.cast_ballot(2, false);
    let outcome = session.close();
    assert_eq!(outcome.quorum, 1);
    assert!(!outcome.reveal);
    assert_eq!(outcome.revealed_id, None);
}
