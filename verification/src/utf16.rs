//! Lossy decoding of UTF-16 code units.
//!
//! Every code unit sequence decodes to text: a unit outside the surrogate range
//! is one character, a high surrogate directly followed by a low surrogate is
//! one supplementary character, and every other surrogate is replaced, one by
//! one, with U+FFFD.

use vstd::prelude::*;

verus! {

/// U+FFFD, the character that takes the place of a unit that is not text.
pub const REPLACEMENT_CHARACTER: char = '\u{FFFD}';

/// A unit in the range reserved for the first half of a surrogate pair.
pub open spec fn is_high_surrogate(unit: u16) -> bool {
    0xD800 <= unit <= 0xDBFF
}

/// A unit in the range reserved for the second half of a surrogate pair.
pub open spec fn is_low_surrogate(unit: u16) -> bool {
    0xDC00 <= unit <= 0xDFFF
}

/// A unit that is one half of a surrogate pair and no character by itself.
pub open spec fn is_surrogate(unit: u16) -> bool {
    0xD800 <= unit <= 0xDFFF
}

/// A number that is a Unicode scalar value, and so a `char`.
pub open spec fn is_scalar_value(value: int) -> bool {
    0 <= value <= 0xD7FF || 0xE000 <= value <= 0x10FFFF
}

/// The scalar value that the surrogate pair `high`, `low` encodes.
pub open spec fn pair_scalar(high: u16, low: u16) -> int {
    0x10000 + (high - 0xD800) * 0x400 + (low - 0xDC00)
}

/// `units` begins with a complete surrogate pair.
pub open spec fn starts_with_pair(units: Seq<u16>) -> bool {
    units.len() >= 2 && is_high_surrogate(units[0]) && is_low_surrogate(units[1])
}

/// The text that `units` decodes to.
pub open spec fn decode_lossy(units: Seq<u16>) -> Seq<char>
    decreases units.len(),
{
    if units.len() == 0 {
        Seq::empty()
    } else if starts_with_pair(units) {
        seq![pair_scalar(units[0], units[1]) as char] + decode_lossy(units.skip(2))
    } else if is_surrogate(units[0]) {
        seq![REPLACEMENT_CHARACTER] + decode_lossy(units.skip(1))
    } else {
        seq![units[0] as char] + decode_lossy(units.skip(1))
    }
}

/// `char::from_u32` of the standard library: the character with the given
/// scalar value, or nothing when the number is a surrogate or lies above
/// U+10FFFF.
pub assume_specification[ char::from_u32 ](value: u32) -> (c: Option<char>)
    ensures
        is_scalar_value(value as int) ==> c == Some(value as char),
        !is_scalar_value(value as int) ==> c.is_none(),
;

/// `String::push` of the standard library: the character is appended to the
/// end of the string and nothing else changes.
pub assume_specification[ String::push ](text: &mut String, c: char)
    ensures
        final(text)@ == old(text)@.push(c),
;

/// Decodes `units` as UTF-16, replacing every unpaired surrogate with U+FFFD.
pub fn decode_utf16_lossy(units: &[u16]) -> (text: String)
    ensures
        text@ == decode_lossy(units@),
{
    let mut text = String::new();
    let mut i: usize = 0;
    assert(units@.skip(0) == units@);
    while i < units.len()
        invariant
            i <= units.len(),
            text@ + decode_lossy(units@.skip(i as int)) == decode_lossy(units@),
        decreases units.len() - i,
    {
        let ghost rest = units@.skip(i as int);
        let unit: u16 = units[i];
        if unit < 0xD800 || unit > 0xDFFF {
            let c = char::from_u32(unit as u32).unwrap();
            text.push(c);
            assert(rest.skip(1) == units@.skip(i + 1));
            i += 1;
        } else if unit <= 0xDBFF && i + 1 < units.len() && 0xDC00 <= units[i + 1] && units[i + 1]
            <= 0xDFFF {
            let low: u16 = units[i + 1];
            let scalar: u32 = 0x10000 + (unit as u32 - 0xD800) * 0x400 + (low as u32 - 0xDC00);
            let c = char::from_u32(scalar).unwrap();
            text.push(c);
            assert(rest.skip(2) == units@.skip(i + 2));
            i += 2;
        } else {
            text.push(REPLACEMENT_CHARACTER);
            assert(rest.skip(1) == units@.skip(i + 1));
            i += 1;
        }
    }
    text
}

/// The surrogate at index `at` of `units` has no partner: it is a high
/// surrogate that no low surrogate follows, or a low surrogate that no high
/// surrogate precedes.
pub open spec fn unpaired_at(units: Seq<u16>, at: int) -> bool {
    &&& 0 <= at < units.len()
    &&& is_surrogate(units[at])
    &&& !(is_high_surrogate(units[at]) && at + 1 < units.len() && is_low_surrogate(units[at + 1]))
    &&& !(is_low_surrogate(units[at]) && at > 0 && is_high_surrogate(units[at - 1]))
}

/// Cutting between `left` and `right` would cut a surrogate pair in two.
pub open spec fn splits_pair(left: Seq<u16>, right: Seq<u16>) -> bool {
    left.len() > 0 && right.len() > 0 && is_high_surrogate(left.last()) && is_low_surrogate(
        right[0],
    )
}

/// The UTF-16 encoding of one character.
pub open spec fn encode_char(c: char) -> Seq<u16> {
    if (c as int) < 0x10000 {
        seq![c as u16]
    } else {
        seq![
            (0xD800 + (c as int - 0x10000) / 0x400) as u16,
            (0xDC00 + (c as int - 0x10000) % 0x400) as u16,
        ]
    }
}

/// The UTF-16 encoding of a text.
pub open spec fn encode(text: Seq<char>) -> Seq<u16>
    decreases text.len(),
{
    if text.len() == 0 {
        Seq::empty()
    } else {
        encode_char(text[0]) + encode(text.skip(1))
    }
}

/// Decoding never produces more characters than there are units.
pub proof fn lemma_decode_len(units: Seq<u16>)
    ensures
        decode_lossy(units).len() <= units.len(),
    decreases units.len(),
{
    if starts_with_pair(units) {
        lemma_decode_len(units.skip(2));
    } else if units.len() > 0 {
        lemma_decode_len(units.skip(1));
    }
}

/// Units outside the surrogate range decode one to one: the text has as many
/// characters as there are units, and each character is its unit's value.
pub proof fn lemma_decode_without_surrogates(units: Seq<u16>)
    requires
        forall|i: int| 0 <= i < units.len() ==> !is_surrogate(#[trigger] units[i]),
    ensures
        decode_lossy(units) == Seq::new(units.len(), |i: int| units[i] as char),
    decreases units.len(),
{
    if units.len() > 0 {
        lemma_decode_without_surrogates(units.skip(1));
    }
}

/// Decoding goes through a concatenation wherever the cut does not fall inside
/// a surrogate pair.
pub proof fn lemma_decode_concat(left: Seq<u16>, right: Seq<u16>)
    requires
        !splits_pair(left, right),
    ensures
        decode_lossy(left + right) == decode_lossy(left) + decode_lossy(right),
    decreases left.len(),
{
    let whole = left + right;
    if starts_with_pair(left) {
        assert(whole.skip(2) =~= left.skip(2) + right);
        lemma_decode_concat(left.skip(2), right);
    } else if left.len() > 0 {
        assert(whole.skip(1) =~= left.skip(1) + right);
        lemma_decode_concat(left.skip(1), right);
    }
}

/// A surrogate without a partner becomes exactly one U+FFFD, at the place in
/// the text where it stood among the units: what comes before it and what
/// comes after it decode as they would alone.
pub proof fn lemma_unpaired_surrogate_is_replaced(units: Seq<u16>, at: int)
    requires
        unpaired_at(units, at),
    ensures
        decode_lossy(units) == decode_lossy(units.take(at)).push(REPLACEMENT_CHARACTER)
            + decode_lossy(units.skip(at + 1)),
        decode_lossy(units)[decode_lossy(units.take(at)).len() as int] == REPLACEMENT_CHARACTER,
{
    let before = units.take(at);
    let from = units.skip(at);
    assert(units =~= before + from);
    lemma_decode_concat(before, from);
    assert(from.skip(1) =~= units.skip(at + 1));
}

/// One encoded character decodes to itself, and its encoding does not end
/// in a high surrogate.
pub proof fn lemma_decode_encode_char(c: char)
    ensures
        decode_lossy(encode_char(c)) == seq![c],
        !is_high_surrogate(encode_char(c).last()),
{
    let units = encode_char(c);
    assert(decode_lossy(units.skip(units.len() as int)).len() == 0);
}

/// Decoding undoes encoding: well-formed UTF-16 decodes to the text it
/// encodes, with no replacement.
pub proof fn lemma_decode_encode(text: Seq<char>)
    ensures
        decode_lossy(encode(text)) == text,
    decreases text.len(),
{
    if text.len() > 0 {
        let head = encode_char(text[0]);
        let tail = encode(text.skip(1));
        lemma_decode_encode(text.skip(1));
        lemma_decode_encode_char(text[0]);
        lemma_decode_concat(head, tail);
    }
}

} // verus!
