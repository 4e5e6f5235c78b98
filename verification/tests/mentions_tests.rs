use memebot::mentions::GuildRefs;
use memebot::mentions::MentionUser;
use memebot::mentions::NamedRef;
use memebot::mentions::expand_mentions;

fn users(list: &[(u64, &str)]) -> Vec<MentionUser> {
    list.iter().map(|(id, name)| MentionUser { id: *id, name: name.to_string() }).collect()
}

fn guild(channels: &[(u64, &str)], roles: &[(u64, &str)]) -> GuildRefs {
    GuildRefs {
        channels: channels.iter().map(|(id, name)| NamedRef { id: *id, name: name.to_string() }).collect(),
        roles: roles.iter().map(|(id, name)| NamedRef { id: *id, name: name.to_string() }).collect(),
    }
}

#[test]
fn known_user_mention_becomes_at_name() {
    let out = expand_mentions("hi <@5>!", &users(&[(5, "alice")]), None);
    assert_eq!(out, "hi @alice!");
}

#[test]
fn unknown_user_mention_keeps_its_digits() {
    let out = expand_mentions("hi <@007>", &users(&[(5, "alice")]), None);
    assert_eq!(out, "hi @007");
}

#[test]
fn nickname_marker_mention_is_resolved_too() {
    let out = expand_mentions("<@!5>", &users(&[(5, "alice")]), None);
    assert_eq!(out, "@alice");
}

#[test]
fn every_occurrence_of_a_mention_is_replaced() {
    let out = expand_mentions("<@5> and <@5>", &users(&[(5, "a")]), None);
    assert_eq!(out, "@a and @a");
}

#[test]
fn channel_mention_resolves_through_the_guild() {
    let g = guild(&[(10, "general")], &[]);
    let out = expand_mentions("see <#10>", &users(&[]), Some(&g));
    assert_eq!(out, "see #general");
}

#[test]
fn unresolved_channel_mention_becomes_deleted_channel() {
    let g = guild(&[(10, "general")], &[]);
    assert_eq!(expand_mentions("<#11>", &users(&[]), Some(&g)), "#deleted-channel");
    assert_eq!(expand_mentions("<#10>", &users(&[]), None), "#deleted-channel");
}

#[test]
fn role_mention_resolves_through_the_guild() {
    let g = guild(&[], &[(3, "mods")]);
    assert_eq!(expand_mentions("<@&3>", &users(&[]), Some(&g)), "@mods");
    assert_eq!(expand_mentions("<@&4>", &users(&[]), Some(&g)), "@deleted-role");
    assert_eq!(expand_mentions("<@&3>", &users(&[]), None), "@deleted-role");
}

#[test]
fn emoji_token_keeps_only_its_name() {
    assert_eq!(expand_mentions("<a:smile:123>", &users(&[]), None), ":smile:");
    assert_eq!(expand_mentions("go <:wave:9> go", &users(&[]), None), "go :wave: go");
}

#[test]
fn expansion_is_idempotent_on_its_output() {
    let g = guild(&[(10, "general")], &[(3, "mods")]);
    let mentioned = users(&[(5, "alice")]);
    let text = "hey <@5>, <#10> <@&3> <:wave:9> <#99>";
    let once = expand_mentions(text, &mentioned, Some(&g));
    let twice = expand_mentions(once.as_str(), &mentioned, Some(&g));
    assert_eq!(once, twice);
    assert_eq!(once, "hey @alice, #general @mods :wave: #deleted-channel");
}

#[test]
fn token_free_text_is_unchanged() {
    let text = "no tokens here, just <angle brackets> and @signs";
    assert_eq!(expand_mentions(text, &users(&[]), None), text);
}

#[test]
fn an_id_that_overflows_u64_falls_back_to_zero() {
    let zero = users(&[(0, "zero")]);
    let out = expand_mentions("<@18446744073709551616>", &zero, None);
    assert_eq!(out, "@zero");
}

#[test]
fn an_id_in_other_decimal_digits_is_a_token_whose_parse_falls_back_to_zero() {
    let zero = users(&[(0, "zero")]);
    assert_eq!(expand_mentions("<@١٢٣>", &zero, None), "@zero");
    assert_eq!(expand_mentions("<@١٢٣>", &users(&[(5, "a")]), None), "@١٢٣");
}

#[test]
fn a_run_of_more_than_32_digits_is_not_a_token() {
    let text = "<@123456789012345678901234567890123>";
    assert_eq!(expand_mentions(text, &users(&[]), None), text);
}
