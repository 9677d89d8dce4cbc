use confessions::button::{ConfessionButton, ConfessionRevealButton};
use confessions::channels::{ChannelRegistry, ChannelUse};
use confessions::pseudonym::get_hash_from_user;
use confessions::salts::GuildConfessionStore;
use confessions::workflow::{
    handle_component, resolve_content, submit, ComponentAction, ConfessionInfo, SubmitOutcome,
    VettingDecision, approve, decide,
};

const GUILD: u64 = 1;
const INTAKE: u64 = 50;
const VETTING: u64 = 51;
const AUTHOR: u64 = 777;

fn registry_with_vetting() -> ChannelRegistry {
    let mut registry = ChannelRegistry::new();
    registry.add_channel_for_guild(GUILD, INTAKE, ChannelUse::Confession);
    registry.add_channel_for_guild(GUILD, VETTING, ChannelUse::Vetting);
    registry
}

fn draft(content: &str) -> ConfessionInfo {
    ConfessionInfo { author: AUTHOR, content: content.to_string(), image: None }
}

#[test]
fn content_prefers_explicit_text() {
    let resolved = resolve_content(
        Some("secret".to_string()),
        Some("cat.png".to_string()),
        Some("typed".to_string()),
    );
    assert_eq!(resolved, "secret");
}

#[test]
fn content_falls_back_to_the_attachment_label() {
    let resolved = resolve_content(None, Some("cat.png".to_string()), None);
    assert_eq!(resolved, "[Filename: cat.png]");
    // an attachment label wins over a solicited form answer
    let resolved = resolve_content(None, Some("cat.png".to_string()), Some("typed".to_string()));
    assert_eq!(resolved, "[Filename: cat.png]");
}

#[test]
fn content_falls_back_to_the_form_then_placeholder() {
    assert_eq!(resolve_content(None, None, Some("typed".to_string())), "typed");
    assert_eq!(resolve_content(None, None, None), "?");
}

#[test]
fn submission_outside_an_intake_channel_is_rejected() {
    let registry = registry_with_vetting();
    let mut salts = GuildConfessionStore::new();
    // the vetting channel itself does not take submissions
    let outcome = submit(&registry, &mut salts, GUILD, VETTING, draft("hi"));
    assert!(matches!(outcome, SubmitOutcome::WrongChannel));
    // neither does an unregistered channel
    let outcome = submit(&registry, &mut salts, GUILD, 99, draft("hi"));
    assert!(matches!(outcome, SubmitOutcome::WrongChannel));
}

#[test]
fn submission_without_a_vetting_channel_is_rejected() {
    let mut registry = ChannelRegistry::new();
    registry.add_channel_for_guild(GUILD, INTAKE, ChannelUse::Confession);
    let mut salts = GuildConfessionStore::new();
    let outcome = submit(&registry, &mut salts, GUILD, INTAKE, draft("hi"));
    assert!(matches!(outcome, SubmitOutcome::NoVettingChannel));
}

#[test]
fn accepted_submission_is_tagged_and_routed_to_vetting() {
    let registry = registry_with_vetting();
    let mut salts = GuildConfessionStore::new();
    salts.set_guild_hash(GUILD, 4242);
    let outcome = submit(
        &registry,
        &mut salts,
        GUILD,
        INTAKE,
        ConfessionInfo {
            author: AUTHOR,
            content: "hi".to_string(),
            image: Some("http://img".to_string()),
        },
    );
    match outcome {
        SubmitOutcome::Pending(p) => {
            assert_eq!(p.author, AUTHOR);
            assert_eq!(p.content, "hi");
            assert_eq!(p.image.as_deref(), Some("http://img"));
            assert_eq!(p.target_channel, INTAKE);
            assert_eq!(p.vetting_channel, VETTING);
            assert_eq!(p.display_tag, get_hash_from_user(4242, AUTHOR));
        },
        _ => panic!("expected a pending confession"),
    }
}

#[test]
fn approval_publishes_the_draft_under_the_current_salt() {
    let registry = registry_with_vetting();
    let mut salts = GuildConfessionStore::new();
    salts.set_guild_hash(GUILD, 4242);
    let pending = match submit(&registry, &mut salts, GUILD, INTAKE, draft("the text")) {
        SubmitOutcome::Pending(p) => p,
        _ => panic!("expected a pending confession"),
    };
    let tag_at_submission = pending.display_tag;
    // the salt is shuffled between submission and approval
    salts.set_guild_hash(GUILD, 9191);
    let published = decide(&mut salts, GUILD, pending, VettingDecision::Approve).unwrap();
    assert_eq!(published.content, "the text");
    assert_eq!(published.target_channel, INTAKE);
    assert_eq!(published.display_tag, get_hash_from_user(9191, AUTHOR));
    assert_ne!(published.display_tag, tag_at_submission);
}

#[test]
fn denial_publishes_nothing() {
    let registry = registry_with_vetting();
    let mut salts = GuildConfessionStore::new();
    let pending = match submit(&registry, &mut salts, GUILD, INTAKE, draft("quiet")) {
        SubmitOutcome::Pending(p) => p,
        _ => panic!("expected a pending confession"),
    };
    assert!(decide(&mut salts, GUILD, pending, VettingDecision::Deny).is_none());
}

#[test]
fn approve_payload_publishes_the_vetting_post_body() {
    let mut salts = GuildConfessionStore::new();
    salts.set_guild_hash(GUILD, 31337);
    let payload = ConfessionButton::ApproveConfession(AUTHOR, INTAKE).encode();
    let action = handle_component(
        &mut salts,
        GUILD,
        &payload,
        "from the embed".to_string(),
        None,
    );
    match action {
        ComponentAction::Publish(p) => {
            assert_eq!(p.content, "from the embed");
            assert_eq!(p.target_channel, INTAKE);
            assert_eq!(p.display_tag, get_hash_from_user(31337, AUTHOR));
        },
        _ => panic!("expected a publish action"),
    }
}

#[test]
fn deny_payload_acknowledges_without_publishing() {
    let mut salts = GuildConfessionStore::new();
    let payload = ConfessionButton::DenyConfession.encode();
    let action = handle_component(&mut salts, GUILD, &payload, "x".to_string(), None);
    assert!(matches!(action, ComponentAction::AcknowledgeDeny));
}

#[test]
fn malformed_payloads_have_no_matching_handler() {
    let mut salts = GuildConfessionStore::new();
    for payload in [vec![], vec![9u8], vec![1u8, 2, 3], vec![1u8; 16], vec![1u8; 18]] {
        let action = handle_component(&mut salts, GUILD, &payload, "x".to_string(), None);
        assert!(matches!(action, ComponentAction::Ignore));
    }
}

#[test]
fn approve_rederives_even_on_a_fresh_guild() {
    let mut salts = GuildConfessionStore::new();
    let published = approve(&mut salts, GUILD, AUTHOR, "text".to_string(), None, INTAKE);
    let salt_now = salts.get_guild_confession_hash(GUILD);
    assert_eq!(published.display_tag, get_hash_from_user(salt_now, AUTHOR));
}

#[test]
fn button_payloads_round_trip() {
    let buttons = [
        ConfessionButton::ApproveConfession(0, 0),
        ConfessionButton::ApproveConfession(u64::MAX, 1),
        ConfessionButton::ApproveConfession(AUTHOR, INTAKE),
        ConfessionButton::DenyConfession,
        ConfessionButton::Blank,
    ];
    for b in buttons {
        assert_eq!(ConfessionButton::decode(&b.encode()), Some(b));
    }
    let reveal_buttons = [
        ConfessionRevealButton::RevealConfession(0),
        ConfessionRevealButton::RevealConfession(0xffffff),
        ConfessionRevealButton::RevealConfession(u32::MAX),
        ConfessionRevealButton::KeepConfession,
        ConfessionRevealButton::Blank,
    ];
    for b in reveal_buttons {
        assert_eq!(ConfessionRevealButton::decode(&b.encode()), Some(b));
    }
}

#[test]
fn payloads_do_not_cross_decode() {
    let approve_payload = ConfessionButton::ApproveConfession(AUTHOR, INTAKE).encode();
    assert_eq!(ConfessionRevealButton::decode(&approve_payload), None);
    let reveal_payload = ConfessionRevealButton::RevealConfession(7).encode();
    assert_eq!(ConfessionButton::decode(&reveal_payload), None);
}
