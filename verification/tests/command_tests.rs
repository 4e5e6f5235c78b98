use memebot::command::parse;

#[test]
fn prefixed_message_splits_into_trigger_and_argument() {
    let c = parse(Some(123), false, "<@123> hello  world x").unwrap();
    assert_eq!(c.trigger, "hello");
    assert_eq!(c.argument, "world x");
    assert_eq!(c.entire, "hello  world x");
}

#[test]
fn nickname_marker_form_is_accepted() {
    let c = parse(Some(99), false, "<@!99>yo").unwrap();
    assert_eq!(c.trigger, "yo");
    assert_eq!(c.argument, "");
    assert_eq!(c.entire, "yo");
}

#[test]
fn unaddressed_message_outside_direct_channel_is_no_command() {
    assert!(parse(Some(123), false, "hello world").is_none());
    assert!(parse(Some(123), false, "<@124> hello").is_none());
    assert!(parse(None, false, "<@123> hello").is_none());
}

#[test]
fn id_digits_must_match_exactly() {
    assert!(parse(Some(123), false, "<@0123> x").is_none());
    assert!(parse(Some(123), false, "<@1234> x").is_none());
}

#[test]
fn direct_message_is_parsed_without_prefix() {
    let c = parse(None, true, "quit").unwrap();
    assert_eq!(c.trigger, "quit");
    assert_eq!(c.argument, "");
    assert_eq!(c.entire, "quit");
}

#[test]
fn direct_message_with_leading_whitespace_has_empty_trigger() {
    let c = parse(Some(5), true, "  hi there").unwrap();
    assert_eq!(c.trigger, "");
    assert_eq!(c.argument, "hi there");
    assert_eq!(c.entire, "  hi there");
}

#[test]
fn prefix_and_whitespace_are_all_that_parsing_removes() {
    let content = "<@123>  cmd arg one";
    let c = parse(Some(123), false, content).unwrap();
    assert_eq!(format!("<@123>  {}", c.entire), content);
    assert_eq!(format!("{} {}", c.trigger, c.argument), c.entire);
}

#[test]
fn all_whitespace_after_prefix_gives_empty_command() {
    let c = parse(Some(7), false, "<@7>   ").unwrap();
    assert_eq!(c.entire, "");
    assert_eq!(c.trigger, "");
    assert_eq!(c.argument, "");
}

#[test]
fn argument_spans_multiple_lines() {
    let c = parse(Some(1), false, "<@1> cap line one\nline two").unwrap();
    assert_eq!(c.trigger, "cap");
    assert_eq!(c.argument, "line one\nline two");
}
