use procmap::utils::{is_well_formed_wide, string_from_wide, try_string_from_wide};

fn wide(text: &str) -> Vec<u16> {
    text.encode_utf16().collect()
}

#[test]
fn decodes_a_plain_path() {
    let units: Vec<u16> = wide("C:\\Windows\\System32\\notepad.exe");
    assert!(is_well_formed_wide(&units));
    assert_eq!(string_from_wide(&units), "C:\\Windows\\System32\\notepad.exe");
}

#[test]
fn decodes_empty_text_to_empty_string() {
    let units: Vec<u16> = Vec::new();
    assert!(is_well_formed_wide(&units));
    assert_eq!(string_from_wide(&units), "");
    assert_eq!(try_string_from_wide(&units), Some(String::new()));
}

#[test]
fn decodes_a_surrogate_pair_to_one_character() {
    let units: Vec<u16> = vec![0xD83D, 0xDE00];
    let text = string_from_wide(&units);
    let chars: Vec<char> = text.chars().collect();
    assert_eq!(chars.len(), 1);
    assert_eq!(chars[0] as u32, 0x1F600);
}

#[test]
fn decodes_the_lowest_and_highest_pairs() {
    let lowest: Vec<u16> = vec![0xD800, 0xDC00];
    let highest: Vec<u16> = vec![0xDBFF, 0xDFFF];
    assert_eq!(string_from_wide(&lowest).chars().next().map(|c| c as u32), Some(0x10000));
    assert_eq!(string_from_wide(&highest).chars().next().map(|c| c as u32), Some(0x10FFFF));
}

#[test]
fn decodes_units_next_to_the_surrogate_range() {
    let units: Vec<u16> = vec![0xD7FF, 0xE000, 0xFFFF, 0x0000];
    let text = string_from_wide(&units);
    let codes: Vec<u32> = text.chars().map(|c| c as u32).collect();
    assert_eq!(codes, vec![0xD7FF, 0xE000, 0xFFFF, 0x0000]);
}

#[test]
fn decodes_mixed_text_in_order() {
    let units: Vec<u16> = vec![0x0041, 0xD83D, 0xDE00, 0x00E9, 0x4E2D];
    assert_eq!(string_from_wide(&units), "A\u{1F600}\u{e9}\u{4e2d}");
}

#[test]
fn rejects_a_lone_high_surrogate() {
    let units: Vec<u16> = vec![0x0041, 0xD800];
    assert!(!is_well_formed_wide(&units));
    assert_eq!(try_string_from_wide(&units), None);
}

#[test]
fn rejects_a_lone_low_surrogate() {
    let units: Vec<u16> = vec![0xDC00, 0x0041];
    assert!(!is_well_formed_wide(&units));
    assert_eq!(try_string_from_wide(&units), None);
}

#[test]
fn rejects_a_high_surrogate_before_an_ordinary_unit() {
    let units: Vec<u16> = vec![0xD800, 0x0041];
    assert!(!is_well_formed_wide(&units));
    assert_eq!(try_string_from_wide(&units), None);
}

#[test]
fn rejects_a_pair_in_the_wrong_order() {
    let units: Vec<u16> = vec![0xDE00, 0xD83D];
    assert!(!is_well_formed_wide(&units));
    assert_eq!(try_string_from_wide(&units), None);
}

#[test]
fn rejects_two_high_surrogates_in_a_row() {
    let units: Vec<u16> = vec![0xD800, 0xD800, 0xDC00];
    assert!(!is_well_formed_wide(&units));
    assert_eq!(try_string_from_wide(&units), None);
}

#[test]
fn agrees_with_the_standard_decoder() {
    let samples: Vec<Vec<u16>> = vec![
        vec![],
        vec![0x0068, 0x0069],
        vec![0xD834, 0xDD1E, 0x006D, 0x0075],
        vec![0xD834, 0x006D],
        vec![0xDD1E],
        vec![0xFFFF, 0xD7FF, 0xE000],
        vec![0xDBFF, 0xDFFF, 0xDBFF],
        wide("\u{10000}x\u{10FFFF}"),
    ];
    for units in samples.iter() {
        assert_eq!(try_string_from_wide(units), String::from_utf16(units).ok());
        assert_eq!(is_well_formed_wide(units), String::from_utf16(units).is_ok());
    }
}

#[test]
fn round_trips_encoded_text() {
    let text = "proc\u{e9}d\u{e9} \u{1F9EA} \u{4f8b}";
    assert_eq!(string_from_wide(&wide(text)), text);
}
