use confessions::auth::Member;
use confessions::channels::{ChannelRegistry, ChannelUse};
use confessions::error::ConfessError;

fn admin() -> Member {
    Member { user_id: 1, roles: vec![100] }
}

fn bystander() -> Member {
    Member { user_id: 2, roles: vec![200] }
}

fn admin_roles() -> Vec<u64> {
    vec![100]
}

#[test]
fn channel_use_maps_to_storage_integers() {
    assert_eq!(ChannelUse::Unused.as_i32(), 0);
    assert_eq!(ChannelUse::Confession.as_i32(), 1);
    assert_eq!(ChannelUse::Vetting.as_i32(), 2);
    assert_eq!(ChannelUse::from(0), ChannelUse::Unused);
    assert_eq!(ChannelUse::from(1), ChannelUse::Confession);
    assert_eq!(ChannelUse::from(2), ChannelUse::Vetting);
    assert_eq!(ChannelUse::from(-7), ChannelUse::Unused);
    assert_eq!(ChannelUse::from(3), ChannelUse::Unused);
}

#[test]
fn get_channel_use_defaults_to_unused() {
    let mut registry = ChannelRegistry::new();
    assert_eq!(registry.get_channel_use(1, 50), ChannelUse::Unused);
    registry.add_channel_for_guild(1, 50, ChannelUse::Confession);
    assert_eq!(registry.get_channel_use(1, 50), ChannelUse::Confession);
    // registered under guild 1, so guild 2 does not see it
    assert_eq!(registry.get_channel_use(2, 50), ChannelUse::Unused);
}

#[test]
fn upsert_replaces_a_channel_row() {
    let mut registry = ChannelRegistry::new();
    registry.add_channel_for_guild(1, 50, ChannelUse::Confession);
    registry.add_channel_for_guild(1, 50, ChannelUse::Vetting);
    assert_eq!(registry.get_channel_use(1, 50), ChannelUse::Vetting);
    assert_eq!(registry.channels().len(), 1);
}

#[test]
fn listing_filters_by_guild_and_use() {
    let mut registry = ChannelRegistry::new();
    registry.add_channel_for_guild(1, 50, ChannelUse::Confession);
    registry.add_channel_for_guild(1, 51, ChannelUse::Vetting);
    registry.add_channel_for_guild(2, 52, ChannelUse::Vetting);
    let in_guild = registry.get_channels_in_guild(1);
    assert_eq!(in_guild.len(), 2);
    assert_eq!(in_guild[0].id, 50);
    assert_eq!(in_guild[1].id, 51);
    let vetting = registry.get_channels_in_guild_with_use(1, ChannelUse::Vetting);
    assert_eq!(vetting.len(), 1);
    assert_eq!(vetting[0].id, 51);
}

#[test]
fn second_vetting_channel_is_a_conflict() {
    let mut registry = ChannelRegistry::new();
    let ok = registry.set_channel(&admin(), &admin_roles(), 1, 51, ChannelUse::Vetting);
    assert_eq!(ok, Ok(()));
    let conflict = registry.set_channel(&admin(), &admin_roles(), 1, 52, ChannelUse::Vetting);
    assert_eq!(conflict, Err(ConfessError::Conflict));
    assert_eq!(registry.get_channel_use(1, 52), ChannelUse::Unused);
    // another guild is free to have its own vetting channel
    let other_guild = registry.set_channel(&admin(), &admin_roles(), 2, 60, ChannelUse::Vetting);
    assert_eq!(other_guild, Ok(()));
}

#[test]
fn vetting_frees_up_once_set_to_unused() {
    let mut registry = ChannelRegistry::new();
    assert_eq!(registry.set_channel(&admin(), &admin_roles(), 1, 51, ChannelUse::Vetting), Ok(()));
    assert_eq!(registry.set_channel(&admin(), &admin_roles(), 1, 51, ChannelUse::Unused), Ok(()));
    assert_eq!(registry.set_channel(&admin(), &admin_roles(), 1, 52, ChannelUse::Vetting), Ok(()));
}

#[test]
fn set_channel_requires_channel_management() {
    let mut registry = ChannelRegistry::new();
    let refused = registry.set_channel(&bystander(), &admin_roles(), 1, 51, ChannelUse::Confession);
    assert_eq!(refused, Err(ConfessError::Unauthorized));
    assert_eq!(registry.get_channel_use(1, 51), ChannelUse::Unused);
}
