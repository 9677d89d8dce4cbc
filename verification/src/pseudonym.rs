//! Pseudonym deriver: maps a guild salt and a member's real identity to a
//! 24-bit display tag that stands in for the member in published confessions.

use vstd::prelude::*;

verus! {

/// Tags live in `[0, 0xFFFFFF]`: six hex digits, doubling as a colour value.
pub const TAG_SPACE: u64 = 0x1000000;

/// What the 64-bit keyed hash returns for a given seed and input word.
/// The value is fixed by the hash algorithm alone, so naming it is sound;
/// nothing else is assumed about it.
pub uninterp spec fn xxhash64_of(seed: u64, input: u64) -> u64;

/// Relies on `twox_hash::XxHash64` (`with_seed`, `Hasher::write`,
/// `Hasher::finish`): a deterministic, non-cryptographic 64-bit keyed hash.
/// The input word is written as its little-endian bytes, so the result
/// depends on the seed and the input alone.
#[verifier::external_body]
fn xxhash64(seed: u64, input: u64) -> (r: u64)
    ensures
        r == xxhash64_of(seed, input),
{
    let mut hasher = twox_hash::XxHash64::with_seed(seed);
    std::hash::Hasher::write(&mut hasher, &input.to_le_bytes());
    std::hash::Hasher::finish(&hasher)
}

/// The display tag derived for real identity `id` under salt `salt`.
pub open spec fn derive_tag(salt: u64, id: u64) -> u64 {
    xxhash64_of(salt, id) % TAG_SPACE
}

/// Reduces a 64-bit hash to the 24-bit tag space, keeping the low 32 bits.
pub fn to_user(col: u64) -> (r: u32)
    ensures
        r == col % TAG_SPACE,
        r <= 0xFFFFFF,
{
    (col % TAG_SPACE) as u32
}

/// Derives the display tag shown for `user_id` in the guild whose salt is
/// `guild_salt`.
pub fn get_hash_from_user(guild_salt: u64, user_id: u64) -> (r: u32)
    ensures
        r == derive_tag(guild_salt, user_id),
        r <= 0xFFFFFF,
{
    let h = xxhash64(guild_salt, user_id);
    to_user(h)
}

/// Law: derivation is a function of salt and identity alone — equal inputs
/// give equal tags — and every tag lies in `[0, 0xFFFFFF]`.
pub proof fn lemma_derive_tag_deterministic_and_bounded(
    salt1: u64,
    id1: u64,
    salt2: u64,
    id2: u64,
)
    ensures
        salt1 == salt2 && id1 == id2 ==> derive_tag(salt1, id1) == derive_tag(salt2, id2),
        0 <= derive_tag(salt1, id1) <= 0xFFFFFF,
{
}

} // verus!
