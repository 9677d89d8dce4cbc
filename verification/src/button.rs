//! Interactive affordance payloads: the opaque correlation data attached to
//! each button. Encoding and decoding round-trip exactly; unrecognised or
//! malformed payloads decode to nothing and are treated as "no matching
//! handler", never as an error.

use vstd::prelude::*;

verus! {

/// A vetting-post affordance: approve carries the submitter's real identity
/// and the requested target channel; deny carries no payload.
#[derive(Clone, Copy, Debug, PartialEq, Eq, Structural)]
pub enum ConfessionButton {
    ApproveConfession(u64, u64),
    DenyConfession,
    Blank,
}

/// A reveal-vote affordance: a ballot for revealing the subject tag, or for
/// keeping it hidden.
#[derive(Clone, Copy, Debug, PartialEq, Eq, Structural)]
pub enum ConfessionRevealButton {
    RevealConfession(u32),
    KeepConfession,
    Blank,
}

/// The little-endian bytes of a 64-bit word.
pub open spec fn spec_u64_le(x: u64) -> Seq<u8> {
    seq![
        (x & 0xff) as u8,
        ((x >> 8) & 0xff) as u8,
        ((x >> 16) & 0xff) as u8,
        ((x >> 24) & 0xff) as u8,
        ((x >> 32) & 0xff) as u8,
        ((x >> 40) & 0xff) as u8,
        ((x >> 48) & 0xff) as u8,
        ((x >> 56) & 0xff) as u8,
    ]
}

/// The 64-bit word read from eight little-endian bytes.
pub open spec fn spec_u64_of_le(s: Seq<u8>) -> u64
    recommends
        s.len() == 8,
{
    (s[0] as u64) | ((s[1] as u64) << 8) | ((s[2] as u64) << 16) | ((s[3] as u64) << 24) | ((
    s[4] as u64) << 32) | ((s[5] as u64) << 40) | ((s[6] as u64) << 48) | ((s[7] as u64) << 56)
}

/// The little-endian bytes of a 32-bit word.
pub open spec fn spec_u32_le(x: u32) -> Seq<u8> {
    seq![(x & 0xff) as u8, ((x >> 8) & 0xff) as u8, ((x >> 16) & 0xff) as u8, ((x >> 24) & 0xff) as u8]
}

/// The 32-bit word read from four little-endian bytes.
pub open spec fn spec_u32_of_le(s: Seq<u8>) -> u32
    recommends
        s.len() == 4,
{
    (s[0] as u32) | ((s[1] as u32) << 8) | ((s[2] as u32) << 16) | ((s[3] as u32) << 24)
}

proof fn lemma_u64_le_roundtrip(x: u64)
    ensures
        spec_u64_of_le(spec_u64_le(x)) == x,
{
    assert(((x & 0xff) as u8 as u64) | ((((x >> 8) & 0xff) as u8 as u64) << 8) | ((((x >> 16)
        & 0xff) as u8 as u64) << 16) | ((((x >> 24) & 0xff) as u8 as u64) << 24) | ((((x >> 32)
        & 0xff) as u8 as u64) << 32) | ((((x >> 40) & 0xff) as u8 as u64) << 40) | ((((x >> 48)
        & 0xff) as u8 as u64) << 48) | ((((x >> 56) & 0xff) as u8 as u64) << 56) == x)
        by (bit_vector);
}

proof fn lemma_u32_le_roundtrip(x: u32)
    ensures
        spec_u32_of_le(spec_u32_le(x)) == x,
{
    assert(((x & 0xff) as u8 as u32) | ((((x >> 8) & 0xff) as u8 as u32) << 8) | ((((x >> 16)
        & 0xff) as u8 as u32) << 16) | ((((x >> 24) & 0xff) as u8 as u32) << 24) == x)
        by (bit_vector);
}

/// Appends the little-endian bytes of `x`.
fn push_u64_le(out: &mut Vec<u8>, x: u64)
    ensures
        final(out)@ == old(out)@ + spec_u64_le(x),
{
    out.push((x & 0xff) as u8);
    out.push(((x >> 8) & 0xff) as u8);
    out.push(((x >> 16) & 0xff) as u8);
    out.push(((x >> 24) & 0xff) as u8);
    out.push(((x >> 32) & 0xff) as u8);
    out.push(((x >> 40) & 0xff) as u8);
    out.push(((x >> 48) & 0xff) as u8);
    out.push(((x >> 56) & 0xff) as u8);
    proof {
        assert(final(out)@ =~= old(out)@ + spec_u64_le(x));
    }
}

/// Reads the 64-bit word at `at`.
fn read_u64_le(s: &Vec<u8>, at: usize) -> (r: u64)
    requires
        at + 8 <= s@.len(),
    ensures
        r == spec_u64_of_le(s@.subrange(at as int, at as int + 8)),
{
    let n = s.len();
    let r = (s[at] as u64) | ((s[at + 1] as u64) << 8) | ((s[at + 2] as u64) << 16) | ((s[at
        + 3] as u64) << 24) | ((s[at + 4] as u64) << 32) | ((s[at + 5] as u64) << 40) | ((s[at
        + 6] as u64) << 48) | ((s[at + 7] as u64) << 56);
    proof {
        let sub = s@.subrange(at as int, at as int + 8);
        assert(sub[0] == s@[at as int] && sub[1] == s@[at as int + 1] && sub[2] == s@[at as int + 2]
            && sub[3] == s@[at as int + 3] && sub[4] == s@[at as int + 4] && sub[5] == s@[at as int
            + 5] && sub[6] == s@[at as int + 6] && sub[7] == s@[at as int + 7]);
    }
    r
}

/// Reads the 32-bit word at `at`.
fn read_u32_le(s: &Vec<u8>, at: usize) -> (r: u32)
    requires
        at + 4 <= s@.len(),
    ensures
        r == spec_u32_of_le(s@.subrange(at as int, at as int + 4)),
{
    let n = s.len();
    let r = (s[at] as u32) | ((s[at + 1] as u32) << 8) | ((s[at + 2] as u32) << 16) | ((s[at
        + 3] as u32) << 24);
    proof {
        let sub = s@.subrange(at as int, at as int + 4);
        assert(sub[0] == s@[at as int] && sub[1] == s@[at as int + 1] && sub[2] == s@[at as int + 2]
            && sub[3] == s@[at as int + 3]);
    }
    r
}

/// The payload bytes of a vetting-post affordance.
pub open spec fn spec_encode_button(b: ConfessionButton) -> Seq<u8> {
    match b {
        ConfessionButton::ApproveConfession(author, target) => seq![1u8] + spec_u64_le(author)
            + spec_u64_le(target),
        ConfessionButton::DenyConfession => seq![2u8],
        ConfessionButton::Blank => seq![0u8],
    }
}

/// What a payload decodes to as a vetting-post affordance, if anything.
pub open spec fn spec_decode_button(s: Seq<u8>) -> Option<ConfessionButton> {
    if s.len() == 17 && s[0] == 1u8 {
        Some(
            ConfessionButton::ApproveConfession(
                spec_u64_of_le(s.subrange(1, 9)),
                spec_u64_of_le(s.subrange(9, 17)),
            ),
        )
    } else if s.len() == 1 && s[0] == 2u8 {
        Some(ConfessionButton::DenyConfession)
    } else if s.len() == 1 && s[0] == 0u8 {
        Some(ConfessionButton::Blank)
    } else {
        None
    }
}

/// The payload bytes of a reveal-vote affordance.
pub open spec fn spec_encode_reveal_button(b: ConfessionRevealButton) -> Seq<u8> {
    match b {
        ConfessionRevealButton::RevealConfession(tag) => seq![3u8] + spec_u32_le(tag),
        ConfessionRevealButton::KeepConfession => seq![4u8],
        ConfessionRevealButton::Blank => seq![5u8],
    }
}

/// What a payload decodes to as a reveal-vote affordance, if anything.
pub open spec fn spec_decode_reveal_button(s: Seq<u8>) -> Option<ConfessionRevealButton> {
    if s.len() == 5 && s[0] == 3u8 {
        Some(ConfessionRevealButton::RevealConfession(spec_u32_of_le(s.subrange(1, 5))))
    } else if s.len() == 1 && s[0] == 4u8 {
        Some(ConfessionRevealButton::KeepConfession)
    } else if s.len() == 1 && s[0] == 5u8 {
        Some(ConfessionRevealButton::Blank)
    } else {
        None
    }
}

impl ConfessionButton {
    /// The payload attached to the affordance.
    pub fn encode(&self) -> (r: Vec<u8>)
        ensures
            r@ == spec_encode_button(*self),
    {
        let mut out: Vec<u8> = Vec::new();
        match self {
            ConfessionButton::ApproveConfession(author, target) => {
                out.push(1u8);
                push_u64_le(&mut out, *author);
                push_u64_le(&mut out, *target);
                proof {
                    assert(out@ =~= spec_encode_button(*self));
                }
            },
            ConfessionButton::DenyConfession => {
                out.push(2u8);
                proof {
                    assert(out@ =~= spec_encode_button(*self));
                }
            },
            ConfessionButton::Blank => {
                out.push(0u8);
                proof {
                    assert(out@ =~= spec_encode_button(*self));
                }
            },
        }
        out
    }

    /// What an inbound payload decodes to, if anything.
    pub fn decode(s: &Vec<u8>) -> (r: Option<ConfessionButton>)
        ensures
            r == spec_decode_button(s@),
    {
        if s.len() == 17 && s[0] == 1u8 {
            let author = read_u64_le(s, 1);
            let target = read_u64_le(s, 9);
            Some(ConfessionButton::ApproveConfession(author, target))
        } else if s.len() == 1 && s[0] == 2u8 {
            Some(ConfessionButton::DenyConfession)
        } else if s.len() == 1 && s[0] == 0u8 {
            Some(ConfessionButton::Blank)
        } else {
            None
        }
    }
}

impl ConfessionRevealButton {
    /// The payload attached to the affordance.
    pub fn encode(&self) -> (r: Vec<u8>)
        ensures
            r@ == spec_encode_reveal_button(*self),
    {
        let mut out: Vec<u8> = Vec::new();
        match self {
            ConfessionRevealButton::RevealConfession(tag) => {
                out.push(3u8);
                out.push((*tag & 0xff) as u8);
                out.push(((*tag >> 8) & 0xff) as u8);
                out.push(((*tag >> 16) & 0xff) as u8);
                out.push(((*tag >> 24) & 0xff) as u8);
                proof {
                    assert(out@ =~= spec_encode_reveal_button(*self));
                }
            },
            ConfessionRevealButton::KeepConfession => {
                out.push(4u8);
                proof {
                    assert(out@ =~= spec_encode_reveal_button(*self));
                }
            },
            ConfessionRevealButton::Blank => {
                out.push(5u8);
                proof {
                    assert(out@ =~= spec_encode_reveal_button(*self));
                }
            },
        }
        out
    }

    /// What an inbound payload decodes to, if anything.
    pub fn decode(s: &Vec<u8>) -> (r: Option<ConfessionRevealButton>)
        ensures
            r == spec_decode_reveal_button(s@),
    {
        if s.len() == 5 && s[0] == 3u8 {
            let tag = read_u32_le(s, 1);
            Some(ConfessionRevealButton::RevealConfession(tag))
        } else if s.len() == 1 && s[0] == 4u8 {
            Some(ConfessionRevealButton::KeepConfession)
        } else if s.len() == 1 && s[0] == 5u8 {
            Some(ConfessionRevealButton::Blank)
        } else {
            None
        }
    }
}

/// Law: a vetting-post payload round-trips exactly — decoding what was
/// encoded gives back the affordance it stood for.
pub proof fn lemma_button_roundtrip(b: ConfessionButton)
    ensures
        spec_decode_button(spec_encode_button(b)) == Some(b),
{
    match b {
        ConfessionButton::ApproveConfession(author, target) => {
            let s = spec_encode_button(b);
            assert(s.len() == 17);
            assert(s[0] == 1u8);
            assert(s.subrange(1, 9) =~= spec_u64_le(author));
            assert(s.subrange(9, 17) =~= spec_u64_le(target));
            lemma_u64_le_roundtrip(author);
            lemma_u64_le_roundtrip(target);
        },
        ConfessionButton::DenyConfession => {
        },
        ConfessionButton::Blank => {
        },
    }
}

/// Law: a reveal-vote payload round-trips exactly.
pub proof fn lemma_reveal_button_roundtrip(b: ConfessionRevealButton)
    ensures
        spec_decode_reveal_button(spec_encode_reveal_button(b)) == Some(b),
{
    match b {
        ConfessionRevealButton::RevealConfession(tag) => {
            let s = spec_encode_reveal_button(b);
            assert(s.len() == 5);
            assert(s[0] == 3u8);
            assert(s.subrange(1, 5) =~= spec_u32_le(tag));
            lemma_u32_le_roundtrip(tag);
        },
        ConfessionRevealButton::KeepConfession => {
        },
        ConfessionRevealButton::Blank => {
        },
    }
}

/// Whether a ballot payload counts as a vote to reveal; anything else —
/// including a payload that decodes to nothing — counts against.
pub fn ballot_is_reveal(s: &Vec<u8>) -> (r: bool)
    ensures
        r == (spec_decode_reveal_button(s@) matches Some(
            ConfessionRevealButton::RevealConfession(_),
        )),
{
    match ConfessionRevealButton::decode(s) {
        Some(ConfessionRevealButton::RevealConfession(_)) => true,
        _ => false,
    }
}

} // verus!
