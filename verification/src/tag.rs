//! Display tag text format: tags are shown as six lowercase hex digits and
//! typed back by moderators when they open a reveal vote; rendering and
//! parsing round-trip exactly.

use vstd::prelude::*;

verus! {

/// Whether `c` is a hexadecimal digit.
pub open spec fn spec_is_hex_digit(c: char) -> bool {
    ('0' <= c && c <= '9') || ('a' <= c && c <= 'f') || ('A' <= c && c <= 'F')
}

/// The value of a hexadecimal digit.
pub open spec fn spec_hex_digit_val(c: char) -> int {
    if '0' <= c && c <= '9' {
        c as int - '0' as int
    } else if 'a' <= c && c <= 'f' {
        c as int - 'a' as int + 10
    } else if 'A' <= c && c <= 'F' {
        c as int - 'A' as int + 10
    } else {
        0
    }
}

/// Whether every character of `s` is a hexadecimal digit.
pub open spec fn spec_all_hex(s: Seq<char>) -> bool {
    forall|i: int| 0 <= i < s.len() ==> spec_is_hex_digit(#[trigger] s[i])
}

/// The number the hexadecimal digits of `s` spell, most significant first.
pub open spec fn spec_hex_value(s: Seq<char>) -> int
    decreases s.len(),
{
    if s.len() == 0 {
        0
    } else {
        spec_hex_value(s.drop_last()) * 16 + spec_hex_digit_val(s.last())
    }
}

/// What a typed tag parses to: a tag exactly when the text is nonempty, all
/// hexadecimal, and fits 32 bits.
pub open spec fn spec_parse_tag(s: Seq<char>) -> Option<u32> {
    if s.len() > 0 && spec_all_hex(s) && spec_hex_value(s) <= u32::MAX {
        Some(spec_hex_value(s) as u32)
    } else {
        None
    }
}

proof fn lemma_hex_value_nonneg(s: Seq<char>)
    ensures
        spec_hex_value(s) >= 0,
    decreases s.len(),
{
    if s.len() > 0 {
        lemma_hex_value_nonneg(s.drop_last());
    }
}

proof fn lemma_hex_value_prefix_le(s: Seq<char>, i: int)
    requires
        0 <= i <= s.len(),
    ensures
        spec_hex_value(s.take(i)) <= spec_hex_value(s),
    decreases s.len() - i,
{
    if i == s.len() {
        assert(s.take(i) =~= s);
    } else {
        assert(s.take(i + 1).drop_last() =~= s.take(i));
        assert(s.take(i + 1).last() == s[i]);
        lemma_hex_value_nonneg(s.take(i));
        lemma_hex_value_prefix_le(s, i + 1);
    }
}

/// The value of one hexadecimal digit, or nothing for any other character.
fn hex_digit_val(c: char) -> (r: Option<u8>)
    ensures
        match r {
            Some(d) => spec_is_hex_digit(c) && d == spec_hex_digit_val(c),
            None => !spec_is_hex_digit(c),
        },
{
    if c >= '0' && c <= '9' {
        Some((c as u8) - ('0' as u8))
    } else if c >= 'a' && c <= 'f' {
        Some((c as u8) - ('a' as u8) + 10)
    } else if c >= 'A' && c <= 'F' {
        Some((c as u8) - ('A' as u8) + 10)
    } else {
        None
    }
}

/// Parses the tag a moderator typed: hexadecimal, as tags are displayed.
/// Empty, non-hexadecimal or oversized text parses to nothing.
pub fn parse_tag(s: &str) -> (r: Option<u32>)
    ensures
        r == spec_parse_tag(s@),
{
    let n = s.unicode_len();
    if n == 0 {
        return None;
    }
    let mut acc: u64 = 0;
    let mut i: usize = 0;
    while i < n
        invariant
            n == s@.len(),
            0 <= i <= n,
            spec_all_hex(s@.take(i as int)),
            acc == spec_hex_value(s@.take(i as int)),
            acc <= u32::MAX,
        decreases n - i,
    {
        let c = s.get_char(i);
        let d = match hex_digit_val(c) {
            Some(d) => d,
            None => {
                assert(!spec_is_hex_digit(s@[i as int]));
                return None;
            },
        };
        let next = acc * 16 + (d as u64);
        proof {
            assert(s@.take(i as int + 1).drop_last() =~= s@.take(i as int));
            assert(s@.take(i as int + 1).last() == s@[i as int]);
            assert(spec_hex_value(s@.take(i as int + 1)) == next);
        }
        if next > 0xffff_ffff {
            proof {
                lemma_hex_value_prefix_le(s@, i as int + 1);
            }
            return None;
        }
        acc = next;
        i = i + 1;
    }
    proof {
        assert(s@.take(n as int) =~= s@);
    }
    Some(acc as u32)
}

/// The character for one hexadecimal digit value.
pub open spec fn spec_hex_digit_char(d: int) -> char {
    if d == 0 {
        '0'
    } else if d == 1 {
        '1'
    } else if d == 2 {
        '2'
    } else if d == 3 {
        '3'
    } else if d == 4 {
        '4'
    } else if d == 5 {
        '5'
    } else if d == 6 {
        '6'
    } else if d == 7 {
        '7'
    } else if d == 8 {
        '8'
    } else if d == 9 {
        '9'
    } else if d == 10 {
        'a'
    } else if d == 11 {
        'b'
    } else if d == 12 {
        'c'
    } else if d == 13 {
        'd'
    } else if d == 14 {
        'e'
    } else if d == 15 {
        'f'
    } else {
        '0'
    }
}

/// How a tag is displayed: six lowercase hexadecimal digits, most significant
/// first.
pub open spec fn spec_render_tag(tag: u32) -> Seq<char> {
    seq![
        spec_hex_digit_char(((tag >> 20) & 0xf) as int),
        spec_hex_digit_char(((tag >> 16) & 0xf) as int),
        spec_hex_digit_char(((tag >> 12) & 0xf) as int),
        spec_hex_digit_char(((tag >> 8) & 0xf) as int),
        spec_hex_digit_char(((tag >> 4) & 0xf) as int),
        spec_hex_digit_char((tag & 0xf) as int),
    ]
}

/// The one-character text of one hexadecimal digit value.
fn hex_digit_str(d: u32) -> (r: &'static str)
    requires
        d < 16,
    ensures
        r@ == seq![spec_hex_digit_char(d as int)],
{
    proof {
        reveal_strlit("0");
        reveal_strlit("1");
        reveal_strlit("2");
        reveal_strlit("3");
        reveal_strlit("4");
        reveal_strlit("5");
        reveal_strlit("6");
        reveal_strlit("7");
        reveal_strlit("8");
        reveal_strlit("9");
        reveal_strlit("a");
        reveal_strlit("b");
        reveal_strlit("c");
        reveal_strlit("d");
        reveal_strlit("e");
        reveal_strlit("f");
    }
    match d {
        0 => "0",
        1 => "1",
        2 => "2",
        3 => "3",
        4 => "4",
        5 => "5",
        6 => "6",
        7 => "7",
        8 => "8",
        9 => "9",
        10 => "a",
        11 => "b",
        12 => "c",
        13 => "d",
        14 => "e",
        _ => "f",
    }
}

/// Renders a tag as it is displayed beside a published confession.
pub fn render_tag(tag: u32) -> (r: String)
    requires
        tag <= 0xffffff,
    ensures
        r@ == spec_render_tag(tag),
{
    proof {
        assert(((tag >> 20) & 0xf) < 16 && ((tag >> 16) & 0xf) < 16 && ((tag >> 12) & 0xf) < 16 && (
        (tag >> 8) & 0xf) < 16 && ((tag >> 4) & 0xf) < 16 && (tag & 0xf) < 16) by (bit_vector);
    }
    let mut out = String::from_str("");
    out.append(hex_digit_str((tag >> 20) & 0xf));
    out.append(hex_digit_str((tag >> 16) & 0xf));
    out.append(hex_digit_str((tag >> 12) & 0xf));
    out.append(hex_digit_str((tag >> 8) & 0xf));
    out.append(hex_digit_str((tag >> 4) & 0xf));
    out.append(hex_digit_str(tag & 0xf));
    proof {
        reveal_strlit("");
        assert(out@ =~= spec_render_tag(tag));
    }
    out
}

proof fn lemma_hex_digit_char_val(d: int)
    requires
        0 <= d < 16,
    ensures
        spec_is_hex_digit(spec_hex_digit_char(d)),
        spec_hex_digit_val(spec_hex_digit_char(d)) == d,
{
}

/// Law: a tag displayed as six hex digits parses back to exactly that tag.
pub proof fn lemma_tag_display_roundtrip(tag: u32)
    requires
        tag <= 0xffffff,
    ensures
        spec_parse_tag(spec_render_tag(tag)) == Some(tag),
{
    let d0 = ((tag >> 20) & 0xf) as int;
    let d1 = ((tag >> 16) & 0xf) as int;
    let d2 = ((tag >> 12) & 0xf) as int;
    let d3 = ((tag >> 8) & 0xf) as int;
    let d4 = ((tag >> 4) & 0xf) as int;
    let d5 = (tag & 0xf) as int;
    assert(((tag >> 20) & 0xf) < 16 && ((tag >> 16) & 0xf) < 16 && ((tag >> 12) & 0xf) < 16 && ((tag
        >> 8) & 0xf) < 16 && ((tag >> 4) & 0xf) < 16 && (tag & 0xf) < 16) by (bit_vector);
    lemma_hex_digit_char_val(d0);
    lemma_hex_digit_char_val(d1);
    lemma_hex_digit_char_val(d2);
    lemma_hex_digit_char_val(d3);
    lemma_hex_digit_char_val(d4);
    lemma_hex_digit_char_val(d5);
    let s = spec_render_tag(tag);
    assert(s.len() == 6);
    assert(spec_all_hex(s));
    let s5 = s.drop_last();
    let s4 = s5.drop_last();
    let s3 = s4.drop_last();
    let s2 = s3.drop_last();
    let s1 = s2.drop_last();
    assert(s1.drop_last() =~= Seq::<char>::empty());
    assert(spec_hex_value(Seq::<char>::empty()) == 0);
    assert(s1.last() == s[0] && s2.last() == s[1] && s3.last() == s[2] && s4.last() == s[3]
        && s5.last() == s[4] && s.last() == s[5]);
    assert(spec_hex_value(s1) == spec_hex_value(s1.drop_last()) * 16 + spec_hex_digit_val(
        s1.last(),
    ));
    assert(spec_hex_value(s1) == d0);
    assert(spec_hex_value(s2) == d0 * 16 + d1);
    assert(spec_hex_value(s3) == (d0 * 16 + d1) * 16 + d2);
    assert(spec_hex_value(s4) == ((d0 * 16 + d1) * 16 + d2) * 16 + d3);
    assert(spec_hex_value(s5) == (((d0 * 16 + d1) * 16 + d2) * 16 + d3) * 16 + d4);
    assert(spec_hex_value(s) == ((((d0 * 16 + d1) * 16 + d2) * 16 + d3) * 16 + d4) * 16 + d5);
    assert(tag <= 0xffffff ==> (((((((tag >> 20) & 0xf) * 16 + ((tag >> 16) & 0xf)) * 16 + ((tag
        >> 12) & 0xf)) * 16 + ((tag >> 8) & 0xf)) * 16 + ((tag >> 4) & 0xf)) * 16 + (tag & 0xf))
        == tag) by (bit_vector);
}

} // verus!
