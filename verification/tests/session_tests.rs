use memebot::catalog::Catalog;
use memebot::catalog::FontCache;
use memebot::handler::Action;
use memebot::handler::MessageInfo;
use memebot::handler::plan_message;
use memebot::session::AuthReply;
use memebot::session::BotSettings;

fn direct(content: &str, author_id: u64) -> MessageInfo {
    MessageInfo {
        content: content.to_string(),
        author_id,
        author_is_bot: false,
        is_direct: true,
        mentions: Vec::new(),
        guild: None,
    }
}

fn empty_catalog() -> Catalog {
    Catalog { fonts: FontCache::new(), memes: Vec::new() }
}

#[test]
fn the_wrong_password_is_denied_and_the_right_one_granted() {
    let mut s = BotSettings::new(Some("s3cret".to_string()));
    assert!(matches!(s.try_authorize(42, "wrong"), AuthReply::Denied));
    assert!(!s.is_admin(42));
    assert!(matches!(s.try_authorize(42, "s3cret"), AuthReply::Granted));
    assert!(s.is_admin(42));
    assert!(matches!(s.try_authorize(42, "s3cret"), AuthReply::AlreadyAuthorized));
}

#[test]
fn without_a_password_nobody_is_ever_granted() {
    let mut s = BotSettings::new(None);
    assert!(matches!(s.try_authorize(42, ""), AuthReply::NoPassword));
    assert!(!s.is_admin(42));
}

#[test]
fn ready_records_the_bot_identifier() {
    let mut s = BotSettings::new(None);
    assert!(s.id.is_none());
    s.note_ready(777);
    assert_eq!(s.id, Some(777));
}

#[test]
fn auth_in_a_direct_channel_unlocks_quit_for_that_sender_only() {
    let mut s = BotSettings::new(Some("pw".to_string()));
    s.note_ready(1);
    let catalog = empty_catalog();

    let granted = plan_message(&mut s, &catalog, &direct("auth pw", 9));
    assert!(matches!(granted, Action::Auth(AuthReply::Granted)));

    let repeat = plan_message(&mut s, &catalog, &direct("auth pw", 9));
    assert!(matches!(repeat, Action::Auth(AuthReply::AlreadyAuthorized)));

    let quit_from_authorized = plan_message(&mut s, &catalog, &direct("quit", 9));
    assert!(matches!(quit_from_authorized, Action::Shutdown));

    let quit_from_stranger = plan_message(&mut s, &catalog, &direct("quit", 8));
    assert!(!matches!(quit_from_stranger, Action::Shutdown));
}

#[test]
fn a_failed_auth_stays_silent() {
    let mut s = BotSettings::new(Some("pw".to_string()));
    s.note_ready(1);
    let catalog = empty_catalog();
    let denied = plan_message(&mut s, &catalog, &direct("auth nope", 9));
    assert!(matches!(denied, Action::Auth(AuthReply::Denied)));
    assert!(!s.is_admin(9));
}

#[test]
fn an_empty_command_is_answered_with_a_question() {
    let mut s = BotSettings::new(None);
    s.note_ready(1);
    let r = plan_message(&mut s, &empty_catalog(), &direct("", 9));
    assert!(matches!(r, Action::Reply(t) if t == "Yes?"));
}

#[test]
fn a_bots_own_message_is_ignored() {
    let mut s = BotSettings::new(None);
    s.note_ready(1);
    let mut msg = direct("auth pw", 9);
    msg.author_is_bot = true;
    assert!(matches!(plan_message(&mut s, &empty_catalog(), &msg), Action::Ignore));
}

#[test]
fn an_unknown_command_without_any_template_apologizes() {
    let mut s = BotSettings::new(None);
    s.note_ready(1);
    let r = plan_message(&mut s, &empty_catalog(), &direct("dunno what", 9));
    assert!(matches!(r, Action::Reply(t) if t == "I have no idea what's going on. (No memes loaded.)"));
}

#[test]
fn a_message_that_is_no_command_is_ignored() {
    let mut s = BotSettings::new(None);
    s.note_ready(1);
    let mut msg = direct("hello", 9);
    msg.is_direct = false;
    assert!(matches!(plan_message(&mut s, &empty_catalog(), &msg), Action::Ignore));
}
