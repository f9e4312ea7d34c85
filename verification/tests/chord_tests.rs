use im_select::chord::{parse_chord, parse_key, split_chord, Key, KeyAction};
use im_select::error::SwitchError;

#[test]
fn parse_key_known_names() {
    assert_eq!(parse_key("shift"), Some(Key::Shift));
    assert_eq!(parse_key("ctrl"), Some(Key::Ctrl));
    assert_eq!(parse_key("control"), Some(Key::Ctrl));
    assert_eq!(parse_key("alt"), Some(Key::Alt));
    assert_eq!(parse_key("space"), Some(Key::Space));
}

#[test]
fn parse_key_ignores_ascii_case() {
    assert_eq!(parse_key("SHIFT"), Some(Key::Shift));
    assert_eq!(parse_key("Ctrl"), Some(Key::Ctrl));
    assert_eq!(parse_key("CoNtRoL"), Some(Key::Ctrl));
    assert_eq!(parse_key("SPACE"), Some(Key::Space));
}

#[test]
fn parse_key_unknown_names() {
    assert_eq!(parse_key("enter"), None);
    assert_eq!(parse_key(""), None);
    assert_eq!(parse_key("ctrl "), None); // whitespace is the caller's business
}

#[test]
fn split_keeps_empty_segments() {
    let segs = split_chord("ctrl+space");
    assert_eq!(segs, vec!["ctrl".to_string(), "space".to_string()]);
    let segs = split_chord("");
    assert_eq!(segs, vec!["".to_string()]);
    let segs = split_chord("a++b");
    assert_eq!(segs, vec!["a".to_string(), "".to_string(), "b".to_string()]);
}

#[test]
fn chord_round_trip_order() {
    // Presses in chord order, then releases in reverse chord order, 2n events.
    let batch = parse_chord("ctrl+space").unwrap();
    assert_eq!(batch.len(), 4);
    assert_eq!(batch[0].key, Key::Ctrl);
    assert_eq!(batch[0].action, KeyAction::Press);
    assert_eq!(batch[1].key, Key::Space);
    assert_eq!(batch[1].action, KeyAction::Press);
    assert_eq!(batch[2].key, Key::Space);
    assert_eq!(batch[2].action, KeyAction::Release);
    assert_eq!(batch[3].key, Key::Ctrl);
    assert_eq!(batch[3].action, KeyAction::Release);
}

#[test]
fn chord_round_trip_three_keys() {
    let batch = parse_chord("shift+alt+space").unwrap();
    assert_eq!(batch.len(), 6);
    let presses: Vec<Key> = batch[..3].iter().map(|e| e.key).collect();
    let releases: Vec<Key> = batch[3..].iter().map(|e| e.key).collect();
    let mut reversed = presses.clone();
    reversed.reverse();
    assert_eq!(releases, reversed);
    assert!(batch[..3].iter().all(|e| e.action == KeyAction::Press));
    assert!(batch[3..].iter().all(|e| e.action == KeyAction::Release));
}

#[test]
fn chord_single_key() {
    let batch = parse_chord("shift").unwrap();
    assert_eq!(batch.len(), 2);
    assert_eq!(batch[0].key, Key::Shift);
    assert_eq!(batch[0].action, KeyAction::Press);
    assert_eq!(batch[1].key, Key::Shift);
    assert_eq!(batch[1].action, KeyAction::Release);
}

#[test]
fn chord_trims_and_folds_segments() {
    let batch = parse_chord(" Ctrl + SPACE ").unwrap();
    assert_eq!(batch.len(), 4);
    assert_eq!(batch[0].key, Key::Ctrl);
    assert_eq!(batch[1].key, Key::Space);
}

#[test]
fn invalid_key_atomicity() {
    // One bad segment among valid ones: the named error, and no batch at all.
    let r = parse_chord("ctrl+bogus+space");
    assert_eq!(r, Err(SwitchError::InvalidKey { segment: "bogus".to_string() }));
}

#[test]
fn invalid_key_names_first_bad_segment() {
    let r = parse_chord("ctrl+foo+bar");
    assert_eq!(r, Err(SwitchError::InvalidKey { segment: "foo".to_string() }));
}

#[test]
fn invalid_key_keeps_segment_verbatim() {
    // The error carries the raw segment, whitespace and all.
    let r = parse_chord("ctrl+ oops +space");
    assert_eq!(r, Err(SwitchError::InvalidKey { segment: " oops ".to_string() }));
}

#[test]
fn empty_chord_is_invalid() {
    let r = parse_chord("");
    assert_eq!(r, Err(SwitchError::InvalidKey { segment: "".to_string() }));
}

#[test]
fn invalid_key_message() {
    let e = parse_chord("ctrl+bogus").unwrap_err();
    assert_eq!(e.describe(), "Invalid key: bogus");
}
