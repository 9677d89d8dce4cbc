//! Confession workflow engine: a submission is routed to the guild's vetting
//! channel under the submitter's display tag; a moderator decision then
//! publishes it to the requested channel or drops it.

use vstd::prelude::*;

use crate::button::{spec_decode_button, ConfessionButton};
use crate::channels::{spec_role, ChannelEntry, ChannelRegistry, ChannelUse};
use crate::pseudonym::{derive_tag, get_hash_from_user};
use crate::salts::GuildConfessionStore;

verus! {

/// A confession as drafted by its submitter: their real identity, the text,
/// and an optional image reference. Ephemeral; never persisted.
pub struct ConfessionInfo {
    pub author: u64,
    pub content: String,
    pub image: Option<String>,
}

/// What a draft's text resolves to: the explicit text if given, else a label
/// for a lone attachment, else what a solicited form returned, else a single
/// placeholder character.
pub open spec fn spec_resolved_content(
    content: Option<String>,
    image_filename: Option<String>,
    modal_text: Option<String>,
) -> Seq<char> {
    match content {
        Some(text) => text@,
        None => match image_filename {
            Some(name) => "[Filename: "@ + name@ + "]"@,
            None => match modal_text {
                Some(text) => text@,
                None => "?"@,
            },
        },
    }
}

/// Resolves a draft's text. `modal_text` is what the solicited form returned,
/// if the submitter gave neither text nor attachment and did not abandon the
/// form.
pub fn resolve_content(
    content: Option<String>,
    image_filename: Option<String>,
    modal_text: Option<String>,
) -> (r: String)
    ensures
        r@ == spec_resolved_content(content, image_filename, modal_text),
{
    match content {
        Some(text) => text,
        None => match image_filename {
            Some(name) => {
                let mut label = String::from_str("[Filename: ");
                label.append(name.as_str());
                label.append("]");
                label
            },
            None => match modal_text {
                Some(text) => text,
                None => String::from_str("?"),
            },
        },
    }
}

/// A submission accepted for vetting: what will be posted to the vetting
/// channel, with the tag derived at submission time.
pub struct PendingConfession {
    pub author: u64,
    pub content: String,
    pub image: Option<String>,
    pub display_tag: u32,
    pub target_channel: u64,
    pub vetting_channel: u64,
}

/// Where a submission went.
pub enum SubmitOutcome {
    /// Accepted: a vetting post carrying this pending confession is owed.
    Pending(PendingConfession),
    /// The channel submitted to does not accept confessions; nothing is
    /// posted.
    WrongChannel,
    /// No vetting channel is configured for the guild; nothing is posted.
    NoVettingChannel,
}

/// The channels of `guild_id` carrying the `Vetting` use, in registry order.
pub open spec fn spec_vetting_channels(s: Seq<ChannelEntry>, guild_id: u64) -> Seq<ChannelEntry> {
    s.filter(|e: ChannelEntry| e.guild_id == guild_id && e.channel_use == ChannelUse::Vetting)
}

/// Routes a submission. Rejected outright unless `target_channel` is a
/// confession intake channel of the guild; rejected when the guild has no
/// vetting channel. Otherwise the confession is pending, tagged with
/// `derive_tag` under the guild's current salt (created on first use) and
/// bound for the guild's first vetting channel.
pub fn submit(
    registry: &ChannelRegistry,
    salts: &mut GuildConfessionStore,
    guild_id: u64,
    target_channel: u64,
    info: ConfessionInfo,
) -> (r: SubmitOutcome)
    requires
        old(salts).wf(),
    ensures
        final(salts).wf(),
        spec_role(registry.rows(), guild_id, target_channel) != ChannelUse::Confession ==> r
            is WrongChannel && final(salts).table() == old(salts).table(),
        spec_role(registry.rows(), guild_id, target_channel) == ChannelUse::Confession
            && spec_vetting_channels(registry.rows(), guild_id).len() == 0 ==> r
            is NoVettingChannel && final(salts).table() == old(salts).table(),
        spec_role(registry.rows(), guild_id, target_channel) == ChannelUse::Confession
            && spec_vetting_channels(registry.rows(), guild_id).len() > 0 ==> match r {
            SubmitOutcome::Pending(p) => {
                &&& p.author == info.author
                &&& p.content == info.content
                &&& p.image == info.image
                &&& p.target_channel == target_channel
                &&& p.vetting_channel == spec_vetting_channels(registry.rows(), guild_id)[0].id
                &&& final(salts).table().contains_key(guild_id)
                &&& p.display_tag == derive_tag(
                    final(salts).table()[guild_id].hash,
                    info.author,
                )
                &&& old(salts).table().contains_key(guild_id) ==> final(salts).table() == old(
                    salts,
                ).table()
                &&& !old(salts).table().contains_key(guild_id) ==> final(salts).table() == old(
                    salts,
                ).table().insert(guild_id, final(salts).table()[guild_id])
            },
            _ => false,
        },
    {
        let role = registry.get_channel_use(guild_id, target_channel);
        if !matches!(role, ChannelUse::Confession) {
            return SubmitOutcome::WrongChannel;
        }
        let vetting = registry.get_channels_in_guild_with_use(guild_id, ChannelUse::Vetting);
        if vetting.len() == 0 {
            return SubmitOutcome::NoVettingChannel;
        }
        let vetting_channel = vetting[0].id;
        let salt = salts.get_guild_confession_hash(guild_id);
        let display_tag = get_hash_from_user(salt, info.author);
        SubmitOutcome::Pending(
            PendingConfession {
                author: info.author,
                content: info.content,
                image: info.image,
                display_tag,
                target_channel,
                vetting_channel,
            },
        )
    }

/// A vetted confession as published: the tag re-derived at approval time, the
/// draft's content and image, bound for the originally requested channel.
pub struct PublishedConfession {
    pub display_tag: u32,
    pub content: String,
    pub image: Option<String>,
    pub target_channel: u64,
}

/// Publishes an approved confession: content and image exactly as drafted,
/// the tag re-derived from the guild's salt as it stands now — a shuffle
/// between submission and approval changes the published tag.
pub fn approve(
    salts: &mut GuildConfessionStore,
    guild_id: u64,
    author: u64,
    content: String,
    image: Option<String>,
    target_channel: u64,
) -> (r: PublishedConfession)
    requires
        old(salts).wf(),
    ensures
        final(salts).wf(),
        r.content == content,
        r.image == image,
        r.target_channel == target_channel,
        final(salts).table().contains_key(guild_id),
        r.display_tag == derive_tag(final(salts).table()[guild_id].hash, author),
        old(salts).table().contains_key(guild_id) ==> final(salts).table() == old(salts).table(),
        !old(salts).table().contains_key(guild_id) ==> final(salts).table() == old(
            salts,
        ).table().insert(guild_id, final(salts).table()[guild_id]),
{
    let salt = salts.get_guild_confession_hash(guild_id);
    let display_tag = get_hash_from_user(salt, author);
    PublishedConfession { display_tag, content, image, target_channel }
}

/// A moderator's decision on a pending confession.
pub enum VettingDecision {
    Approve,
    Deny,
}

/// The terminal transition of one submission: approval publishes it (tag
/// re-derived now), denial publishes nothing. Either way the vetting post's
/// affordances are owed a clearing so the decision cannot be repeated.
pub fn decide(
    salts: &mut GuildConfessionStore,
    guild_id: u64,
    pending: PendingConfession,
    decision: VettingDecision,
) -> (r: Option<PublishedConfession>)
    requires
        old(salts).wf(),
    ensures
        final(salts).wf(),
        decision is Deny ==> r is None && final(salts).table() == old(salts).table(),
        decision is Approve ==> match r {
            Some(p) => {
                &&& p.content == pending.content
                &&& p.image == pending.image
                &&& p.target_channel == pending.target_channel
                &&& final(salts).table().contains_key(guild_id)
                &&& p.display_tag == derive_tag(
                    final(salts).table()[guild_id].hash,
                    pending.author,
                )
            },
            None => false,
        },
{
    match decision {
        VettingDecision::Approve => Some(
            approve(
                salts,
                guild_id,
                pending.author,
                pending.content,
                pending.image,
                pending.target_channel,
            ),
        ),
        VettingDecision::Deny => None,
    }
}

/// What an inbound component interaction on a vetting post amounts to.
pub enum ComponentAction {
    /// An approve affordance: publish this and clear the post's affordances.
    Publish(PublishedConfession),
    /// A deny affordance: acknowledge the denier and clear the affordances;
    /// nothing is published.
    AcknowledgeDeny,
    /// No matching handler; the event is dropped.
    Ignore,
}

/// Routes one component interaction by its payload. An approve payload
/// carries the submitter and target channel; the confession body is read back
/// from the vetting post. Unrecognised or malformed payloads are ignored,
/// never an error.
pub fn handle_component(
    salts: &mut GuildConfessionStore,
    guild_id: u64,
    payload: &Vec<u8>,
    content: String,
    image: Option<String>,
) -> (r: ComponentAction)
    requires
        old(salts).wf(),
    ensures
        final(salts).wf(),
        match spec_decode_button(payload@) {
            Some(ConfessionButton::ApproveConfession(author, target)) => match r {
                ComponentAction::Publish(p) => {
                    &&& p.content == content
                    &&& p.image == image
                    &&& p.target_channel == target
                    &&& final(salts).table().contains_key(guild_id)
                    &&& p.display_tag == derive_tag(final(salts).table()[guild_id].hash, author)
                },
                _ => false,
            },
            Some(ConfessionButton::DenyConfession) => r is AcknowledgeDeny && final(salts).table()
                == old(salts).table(),
            _ => r is Ignore && final(salts).table() == old(salts).table(),
        },
{
    match ConfessionButton::decode(payload) {
        Some(ConfessionButton::ApproveConfession(author, target)) => ComponentAction::Publish(
            approve(salts, guild_id, author, content, image, target),
        ),
        Some(ConfessionButton::DenyConfession) => ComponentAction::AcknowledgeDeny,
        _ => ComponentAction::Ignore,
    }
}

} // verus!
