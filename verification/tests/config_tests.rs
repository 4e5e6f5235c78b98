use memebot::config::ConfigEntry;
use memebot::config::ConfigError;
use memebot::config::LoadWarning;
use memebot::config::parse_config;
use memebot::config::parse_entry;

fn only_mapping(entry: &ConfigEntry) -> &Vec<memebot::config::ConfigPair> {
    match entry {
        ConfigEntry::Mapping(pairs) => pairs,
        ConfigEntry::NotAMapping => panic!("expected a mapping entry"),
    }
}

#[test]
fn a_two_entry_document_is_read_in_order() {
    let text = "- filename: a.png\n  command: foo\n- filename: b.png\n  command: foo\n";
    let entries = parse_config(text).unwrap();
    assert_eq!(entries.len(), 2);
    let (first, w1) = parse_entry(only_mapping(&entries[0]));
    let (second, w2) = parse_entry(only_mapping(&entries[1]));
    assert!(w1.is_empty() && w2.is_empty());
    assert_eq!(first.filename.as_deref(), Some("a.png"));
    assert_eq!(second.filename.as_deref(), Some("b.png"));
    assert_eq!(first.command.as_deref(), Some("foo"));
}

#[test]
fn every_recognized_key_is_read() {
    let text = "- filename: x.png\n  font: f.ttf\n  font_size: 40\n  left: 1\n  top: 2\n  right: 3\n  bottom: 4\n  text_prefix: \"p \"\n  text_suffix: \" s\"\n  command: go\n  is_default: true\n";
    let entries = parse_config(text).unwrap();
    let (raw, warns) = parse_entry(only_mapping(&entries[0]));
    assert!(warns.is_empty());
    assert_eq!(raw.filename.as_deref(), Some("x.png"));
    assert_eq!(raw.font.as_deref(), Some("f.ttf"));
    assert_eq!(raw.font_size, Some(40));
    assert_eq!(raw.left, Some(1));
    assert_eq!(raw.top, Some(2));
    assert_eq!(raw.right, Some(3));
    assert_eq!(raw.bottom, Some(4));
    assert_eq!(raw.text_prefix.as_deref(), Some("p "));
    assert_eq!(raw.text_suffix.as_deref(), Some(" s"));
    assert_eq!(raw.command.as_deref(), Some("go"));
    assert_eq!(raw.is_default, Some(true));
}

#[test]
fn the_last_well_shaped_occurrence_of_a_key_wins() {
    let text = "- filename: x.png\n  font_size: 10\n  font_size: 20\n";
    let entries = parse_config(text).unwrap();
    let (raw, _) = parse_entry(only_mapping(&entries[0]));
    assert_eq!(raw.font_size, Some(20));
}

#[test]
fn a_non_positive_size_is_warned_about_and_skipped() {
    let text = "- filename: x.png\n  font_size: -3\n";
    let entries = parse_config(text).unwrap();
    let (raw, warns) = parse_entry(only_mapping(&entries[0]));
    assert_eq!(raw.font_size, None);
    assert_eq!(warns.len(), 1);
    assert!(matches!(&warns[0], LoadWarning::BadValue(k) if k == "font_size"));
}

#[test]
fn an_oversized_bound_is_truncated_the_way_a_cast_wraps() {
    let text = "- filename: x.png\n  left: 4294967297\n";
    let entries = parse_config(text).unwrap();
    let (raw, warns) = parse_entry(only_mapping(&entries[0]));
    assert!(warns.is_empty());
    assert_eq!(raw.left, Some(1));
}

#[test]
fn a_wrong_typed_value_is_warned_about_and_skipped() {
    let text = "- filename: x.png\n  left: wide\n  is_default: maybe\n";
    let entries = parse_config(text).unwrap();
    let (raw, warns) = parse_entry(only_mapping(&entries[0]));
    assert_eq!(raw.left, None);
    assert_eq!(raw.is_default, None);
    assert_eq!(warns.len(), 2);
    assert!(matches!(&warns[0], LoadWarning::BadValue(k) if k == "left"));
    assert!(matches!(&warns[1], LoadWarning::BadValue(k) if k == "is_default"));
}

#[test]
fn an_unknown_key_is_warned_about() {
    let text = "- filename: x.png\n  color: red\n";
    let entries = parse_config(text).unwrap();
    let (_, warns) = parse_entry(only_mapping(&entries[0]));
    assert_eq!(warns.len(), 1);
    assert!(matches!(&warns[0], LoadWarning::UnknownKey(k) if k == "color"));
}

#[test]
fn a_non_string_key_is_warned_about() {
    let text = "- filename: x.png\n  5: what\n";
    let entries = parse_config(text).unwrap();
    let (_, warns) = parse_entry(only_mapping(&entries[0]));
    assert_eq!(warns.len(), 1);
    assert!(matches!(&warns[0], LoadWarning::NonStringKey));
}

#[test]
fn a_non_mapping_entry_is_kept_as_such() {
    let text = "- filename: x.png\n- just a string\n";
    let entries = parse_config(text).unwrap();
    assert!(matches!(entries[0], ConfigEntry::Mapping(_)));
    assert!(matches!(entries[1], ConfigEntry::NotAMapping));
}

#[test]
fn a_document_that_is_not_a_list_is_fatal() {
    assert!(matches!(parse_config("filename: x.png\n"), Err(ConfigError::NotAList)));
}

#[test]
fn an_empty_document_is_fatal() {
    assert!(matches!(parse_config(""), Err(ConfigError::Empty)));
}

#[test]
fn an_unscannable_document_is_fatal() {
    assert!(matches!(parse_config("- a\n-\tb: [unclosed\n"), Err(ConfigError::Unreadable(_))));
}
