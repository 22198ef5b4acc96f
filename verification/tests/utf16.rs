use printer_directory::utf16::{decode_utf16_lossy, REPLACEMENT_CHARACTER};

fn units_of(text: &str) -> Vec<u16> {
    text.encode_utf16().collect()
}

#[test]
fn decodes_the_empty_sequence_to_the_empty_string() {
    assert_eq!(decode_utf16_lossy(&[]), "");
}

#[test]
fn decodes_plain_units_one_to_one() {
    assert_eq!(decode_utf16_lossy(&units_of("HP LaserJet")), "HP LaserJet");
    assert_eq!(decode_utf16_lossy(&[0x0048, 0x0050]), "HP");
}

#[test]
fn decodes_units_outside_ascii() {
    // "Büro" and two CJK characters.
    assert_eq!(decode_utf16_lossy(&[0x0042, 0x00FC, 0x0072, 0x006F]), "B\u{FC}ro");
    assert_eq!(decode_utf16_lossy(&[0x5370, 0x5237]), "\u{5370}\u{5237}");
}

#[test]
fn keeps_a_zero_unit_as_a_character() {
    assert_eq!(decode_utf16_lossy(&[0x0041, 0x0000, 0x0042]), "A\u{0}B");
}

#[test]
fn decodes_the_units_next_to_the_surrogate_range() {
    assert_eq!(decode_utf16_lossy(&[0xD7FF]), "\u{D7FF}");
    assert_eq!(decode_utf16_lossy(&[0xE000]), "\u{E000}");
    assert_eq!(decode_utf16_lossy(&[0xFFFF]), "\u{FFFF}");
}

#[test]
fn combines_a_surrogate_pair_into_one_character() {
    assert_eq!(decode_utf16_lossy(&[0xD83D, 0xDDA8]), "\u{1F5A8}");
    assert_eq!(decode_utf16_lossy(&[0xD834, 0xDD1E]), "\u{1D11E}");
}

#[test]
fn combines_the_first_and_the_last_pair() {
    assert_eq!(decode_utf16_lossy(&[0xD800, 0xDC00]), "\u{10000}");
    assert_eq!(decode_utf16_lossy(&[0xDBFF, 0xDFFF]), "\u{10FFFF}");
}

#[test]
fn replaces_a_high_surrogate_that_nothing_follows() {
    assert_eq!(decode_utf16_lossy(&[0x0041, 0xD800]), "A\u{FFFD}");
}

#[test]
fn replaces_a_high_surrogate_before_a_plain_unit() {
    let text = decode_utf16_lossy(&[0xD834, 0xDD1E, 0x006D, 0x0075, 0xD800, 0x0069, 0x0063]);
    assert_eq!(text, "\u{1D11E}mu\u{FFFD}ic");
    assert_eq!(text.chars().nth(3), Some(REPLACEMENT_CHARACTER));
}

#[test]
fn replaces_a_low_surrogate_that_nothing_precedes() {
    assert_eq!(decode_utf16_lossy(&[0xDC00, 0x0041]), "\u{FFFD}A");
    assert_eq!(decode_utf16_lossy(&[0x0041, 0xDFFF, 0x0042]), "A\u{FFFD}B");
}

#[test]
fn replaces_each_unpaired_surrogate_by_itself() {
    assert_eq!(decode_utf16_lossy(&[0xDC00, 0xD800]), "\u{FFFD}\u{FFFD}");
    assert_eq!(decode_utf16_lossy(&[0xD800, 0xD800]), "\u{FFFD}\u{FFFD}");
    assert_eq!(decode_utf16_lossy(&[0xDC00, 0xDC00, 0xDC00]), "\u{FFFD}\u{FFFD}\u{FFFD}");
}

#[test]
fn pairs_the_second_of_two_high_surrogates() {
    assert_eq!(decode_utf16_lossy(&[0xD800, 0xD800, 0xDC00]), "\u{FFFD}\u{10000}");
}

#[test]
fn does_not_pair_across_a_completed_pair() {
    assert_eq!(decode_utf16_lossy(&[0xD800, 0xDC00, 0xDC00]), "\u{10000}\u{FFFD}");
}

#[test]
fn the_replacement_character_is_u_fffd() {
    assert_eq!(REPLACEMENT_CHARACTER, '\u{FFFD}');
    assert_eq!(REPLACEMENT_CHARACTER, char::REPLACEMENT_CHARACTER);
}

#[test]
fn never_yields_more_characters_than_units() {
    let units: [u16; 6] = [0x0041, 0xD83D, 0xDDA8, 0xDC00, 0xD800, 0x0042];
    let text = decode_utf16_lossy(&units);
    assert_eq!(text, "A\u{1F5A8}\u{FFFD}\u{FFFD}B");
    assert!(text.chars().count() <= units.len());
}

#[test]
fn decoding_undoes_encoding() {
    let text = "Kyocera \u{5370}\u{5237} \u{1F5A8} #2 \u{10FFFF}\u{E000}";
    assert_eq!(decode_utf16_lossy(&units_of(text)), text);
}

#[test]
fn a_cut_outside_a_pair_splits_the_text() {
    let left: [u16; 3] = [0x0041, 0xD83D, 0xDDA8];
    let right: [u16; 2] = [0xDC00, 0x0042];
    let mut whole = left.to_vec();
    whole.extend_from_slice(&right);
    let mut expected = decode_utf16_lossy(&left);
    expected.push_str(&decode_utf16_lossy(&right));
    assert_eq!(decode_utf16_lossy(&whole), expected);
}

#[test]
fn agrees_with_the_standard_library_on_every_short_sequence() {
    let samples: [u16; 10] =
        [0x0000, 0x0041, 0x00FC, 0xD7FF, 0xD800, 0xDBFF, 0xDC00, 0xDFFF, 0xE000, 0xFFFF];
    let mut units: Vec<u16> = Vec::new();
    let mut checked = 0usize;
    for len in 0..5usize {
        let mut counter = vec![0usize; len];
        loop {
            units.clear();
            for &digit in &counter {
                units.push(samples[digit]);
            }
            assert_eq!(decode_utf16_lossy(&units), String::from_utf16_lossy(&units));
            checked += 1;
            let mut place = 0;
            while place < len && counter[place] + 1 == samples.len() {
                counter[place] = 0;
                place += 1;
            }
            if place == len {
                break;
            }
            counter[place] += 1;
        }
    }
    assert_eq!(checked, 1 + 10 + 100 + 1000 + 10000);
}

#[test]
fn agrees_with_the_standard_library_on_every_single_unit_and_pair_start() {
    for unit in 0..=u16::MAX {
        assert_eq!(decode_utf16_lossy(&[unit]), String::from_utf16_lossy(&[unit]));
        assert_eq!(
            decode_utf16_lossy(&[0xD801, unit]),
            String::from_utf16_lossy(&[0xD801, unit])
        );
        assert_eq!(
            decode_utf16_lossy(&[unit, 0xDC37]),
            String::from_utf16_lossy(&[unit, 0xDC37])
        );
    }
}
