use confessions::error::ConfessError;
use confessions::pseudonym::get_hash_from_user;
use confessions::salts::{GuildConfessionRecord, GuildConfessionStore};

#[test]
fn salt_is_created_once_and_kept() {
    let mut store = GuildConfessionStore::new();
    let first = store.get_guild_confession_hash(7);
    let second = store.get_guild_confession_hash(7);
    assert_eq!(first, second);
    let record = store.get_or_new_guild_confessions(7);
    assert_eq!(record.guild_id, 7);
    assert_eq!(record.hash, first);
    assert!(!record.lock_shuffle);
}

#[test]
fn set_guild_hash_overrides_the_salt() {
    let mut store = GuildConfessionStore::new();
    store.set_guild_hash(3, 0xabcd);
    assert_eq!(store.get_guild_confession_hash(3), 0xabcd);
    store.set_guild_hash(3, 0x1234);
    assert_eq!(store.get_guild_confession_hash(3), 0x1234);
}

#[test]
fn shuffle_never_touches_another_guild() {
    let mut store = GuildConfessionStore::new();
    store.set_guild_hash(1, 111);
    store.set_guild_hash(2, 222);
    let members = [10u64, 20, 30];
    let before: Vec<u32> = members.iter().map(|m| get_hash_from_user(222, *m)).collect();
    store.shuffle_guild_hash(1).unwrap();
    assert_eq!(store.get_guild_confession_hash(2), 222);
    let after: Vec<u32> = members
        .iter()
        .map(|m| get_hash_from_user(store.get_guild_confession_hash(2), *m))
        .collect();
    assert_eq!(before, after);
}

#[test]
fn changing_the_salt_changes_some_member_tag() {
    let members = [10u64, 20, 30, 40, 50];
    let old_tags: Vec<u32> = members.iter().map(|m| get_hash_from_user(111, *m)).collect();
    let new_tags: Vec<u32> = members.iter().map(|m| get_hash_from_user(112, *m)).collect();
    assert_ne!(old_tags, new_tags);
}

#[test]
fn shuffle_is_refused_while_locked() {
    let mut store = GuildConfessionStore::new();
    store.set_guild_hash(5, 555);
    store.set_guild_shuffle_lock(5, true);
    assert!(store.get_guild_shuffle_lock(5));
    assert_eq!(store.shuffle_guild_hash(5), Err(ConfessError::Conflict));
    assert_eq!(store.get_guild_confession_hash(5), 555);
    store.set_guild_shuffle_lock(5, false);
    assert!(!store.get_guild_shuffle_lock(5));
    let shuffled = store.shuffle_guild_hash(5).unwrap();
    assert_eq!(shuffled.guild_id, 5);
    assert!(!shuffled.lock_shuffle);
}

#[test]
fn set_guild_confessions_upserts_whole_rows() {
    let mut store = GuildConfessionStore::new();
    store.set_guild_confessions(GuildConfessionRecord { guild_id: 9, hash: 99, lock_shuffle: true });
    assert_eq!(store.get_guild_confession_hash(9), 99);
    assert!(store.get_guild_shuffle_lock(9));
}
