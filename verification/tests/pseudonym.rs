use std::hash::Hasher;

use confessions::pseudonym::{get_hash_from_user, to_user};

/// The tag the library must derive, computed straight from the hash crate.
fn reference_tag(salt: u64, id: u64) -> u32 {
    let mut hasher = twox_hash::XxHash64::with_seed(salt);
    hasher.write(&id.to_le_bytes());
    (hasher.finish() % 0x1000000) as u32
}

#[test]
fn derive_is_deterministic() {
    for (salt, id) in [(0u64, 0u64), (1, 2), (0xdead_beef, 42), (u64::MAX, u64::MAX)] {
        assert_eq!(get_hash_from_user(salt, id), get_hash_from_user(salt, id));
    }
}

#[test]
fn derive_lies_in_tag_space() {
    for salt in [0u64, 1, 7, 0xffff_ffff_ffff_ffff] {
        for id in [0u64, 1, 505513490077843477, u64::MAX] {
            assert!(get_hash_from_user(salt, id) <= 0xffffff);
        }
    }
}

#[test]
fn derive_matches_the_hash_crate() {
    for (salt, id) in [(0u64, 0u64), (1, 2), (99, 505513490077843477), (u64::MAX, 3)] {
        assert_eq!(get_hash_from_user(salt, id), reference_tag(salt, id));
    }
}

#[test]
fn derive_does_not_echo_its_input() {
    // A wrapper that handed the identity back unchanged would fail here.
    assert_ne!(get_hash_from_user(0, 5) as u64, 5);
    assert_ne!(get_hash_from_user(1, 5), get_hash_from_user(2, 5));
}

#[test]
fn to_user_reduces_modulo_tag_space() {
    assert_eq!(to_user(0), 0);
    assert_eq!(to_user(0x1000000), 0);
    assert_eq!(to_user(0x1000001), 1);
    assert_eq!(to_user(0x0123_4567_89ab_cdef), (0x0123_4567_89ab_cdef_u64 % 0x1000000) as u32);
    assert_eq!(to_user(u64::MAX), (u64::MAX % 0x1000000) as u32);
}
