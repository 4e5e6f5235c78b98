//! The command parser: extracts a trigger and argument from a raw message,
//! given the bot's identifier and whether the channel is a direct one.
//!
//! A message addressed to the bot starts with `<@id>` or `<@!id>` (the
//! nickname-marker form). After that prefix, whitespace is skipped, the
//! trigger is the first whitespace-free run, more whitespace is skipped, and
//! the argument runs to the end of the message. In a direct channel the same
//! split is applied to the whole content with no prefix. Anywhere else the
//! message is not a command.

use vstd::prelude::*;

use crate::text::check_match_at;
use crate::text::dec_digits;
use crate::text::is_digit_char;
use crate::text::is_space_char;
use crate::text::lemma_nonspace_run_stops;
use crate::text::lemma_space_run_end_stops;
use crate::text::matches_at;
use crate::text::nonspace_run_end;
use crate::text::nonspace_run_end_at;
use crate::text::space_run_end;
use crate::text::space_run_end_at;
use crate::text::u64_to_dec;

verus! {

/// A parsed command. `entire` is everything after the addressing prefix and
/// the whitespace that follows it; `trigger` is the first whitespace-free
/// token of `entire`; `argument` is what remains after the trigger and the
/// whitespace that separates it.
pub struct Command {
    pub entire: String,
    pub trigger: String,
    pub argument: String,
}

/// The mathematical value of a parsed command.
pub ghost struct CommandModel {
    pub entire: Seq<char>,
    pub trigger: Seq<char>,
    pub argument: Seq<char>,
}

/// The addressing prefix: `<@id>`, or `<@!id>` when `bang` is set.
pub open spec fn bot_prefix(id: u64, bang: bool) -> Seq<char> {
    if bang {
        seq!['<', '@', '!'] + dec_digits(id as nat) + seq!['>']
    } else {
        seq!['<', '@'] + dec_digits(id as nat) + seq!['>']
    }
}

/// Splits `s` from position `p` into entire, trigger and argument, the way
/// the prefixed grammar does: whitespace, trigger, whitespace, argument.
/// `entire` starts at the trigger, not at `p`, so the whitespace right after
/// the prefix is excluded from it.
pub open spec fn prefixed_split(s: Seq<char>, p: int) -> CommandModel {
    let t0 = space_run_end(s, p);
    let t1 = nonspace_run_end(s, t0);
    let a0 = space_run_end(s, t1);
    CommandModel {
        entire: s.subrange(t0, s.len() as int),
        trigger: s.subrange(t0, t1),
        argument: s.subrange(a0, s.len() as int),
    }
}

/// Splits a direct message: the trigger starts at the very beginning (it is
/// empty when the content starts with whitespace), and `entire` is the whole
/// content.
pub open spec fn direct_split(s: Seq<char>) -> CommandModel {
    let t1 = nonspace_run_end(s, 0);
    let a0 = space_run_end(s, t1);
    CommandModel {
        entire: s,
        trigger: s.subrange(0, t1),
        argument: s.subrange(a0, s.len() as int),
    }
}

/// What `parse` returns: the prefixed split when the content is addressed to
/// the bot, the direct split in a direct channel, and nothing otherwise.
pub open spec fn parse_spec(bot_id: Option<u64>, is_direct: bool, content: Seq<char>) -> Option<
    CommandModel,
> {
    if bot_id is Some && matches_at(content, 0, bot_prefix(bot_id->0, false)) {
        Some(prefixed_split(content, bot_prefix(bot_id->0, false).len() as int))
    } else if bot_id is Some && matches_at(content, 0, bot_prefix(bot_id->0, true)) {
        Some(prefixed_split(content, bot_prefix(bot_id->0, true).len() as int))
    } else if is_direct {
        Some(direct_split(content))
    } else {
        None
    }
}

/// A message that carries no addressing prefix and was not sent in a direct
/// channel is not a command: `parse` returns nothing for it.
pub proof fn lemma_unaddressed_not_a_command(bot_id: Option<u64>, content: Seq<char>)
    requires
        bot_id is Some ==> !matches_at(content, 0, bot_prefix(bot_id->0, false)),
        bot_id is Some ==> !matches_at(content, 0, bot_prefix(bot_id->0, true)),
    ensures
        parse_spec(bot_id, false, content) is None,
{
}

/// The two prefix forms never match the same content: right after `<@` the
/// plain form requires a digit, the nickname form the marker `!`.
pub proof fn lemma_prefix_forms_disjoint(id: u64, content: Seq<char>)
    ensures
        !(matches_at(content, 0, bot_prefix(id, false)) && matches_at(
            content,
            0,
            bot_prefix(id, true),
        )),
{
    crate::text::lemma_dec_digits_digits(id as nat);
    if matches_at(content, 0, bot_prefix(id, false)) && matches_at(
        content,
        0,
        bot_prefix(id, true),
    ) {
        let plain = bot_prefix(id, false);
        let bang = bot_prefix(id, true);
        assert(content.subrange(0, plain.len() as int)[2] == plain[2]);
        assert(content.subrange(0, bang.len() as int)[2] == bang[2]);
        assert(plain[2] == dec_digits(id as nat)[0]);
        assert(bang[2] == '!');
        assert(is_digit_char(content[2]) && content[2] == '!');
        assert(false);
    }
}

/// Parsing loses no characters (the round trip). Content addressed to the
/// bot decomposes exactly into the prefix, the whitespace run after it, and
/// `entire`; `entire` decomposes exactly into the trigger, the whitespace
/// run after it, and the argument. With an empty trigger the argument equals
/// `entire`: the content with only the prefix and the whitespace immediately
/// following it removed.
pub proof fn lemma_parse_round_trip(id: u64, bang: bool, content: Seq<char>)
    requires
        matches_at(content, 0, bot_prefix(id, bang)),
    ensures
        parse_spec(Some(id), false, content) is Some,
        ({
            let c = parse_spec(Some(id), false, content)->0;
            let p = bot_prefix(id, bang).len() as int;
            let t0 = space_run_end(content, p);
            let t1 = nonspace_run_end(content, t0);
            let a0 = space_run_end(content, t1);
            &&& content == bot_prefix(id, bang) + content.subrange(p, t0) + c.entire
            &&& (forall|k: int| p <= k < t0 ==> is_space_char(content[k]))
            &&& c.entire == c.trigger + content.subrange(t1, a0) + c.argument
            &&& (forall|k: int| t1 <= k < a0 ==> is_space_char(content[k]))
            &&& (c.trigger.len() == 0 ==> c.argument == c.entire)
        }),
{
    lemma_prefix_forms_disjoint(id, content);
    let pfx = bot_prefix(id, bang);
    let p = pfx.len() as int;
    let t0 = space_run_end(content, p);
    let t1 = nonspace_run_end(content, t0);
    let a0 = space_run_end(content, t1);
    lemma_space_run_end_stops(content, p);
    lemma_nonspace_run_stops(content, t0);
    lemma_space_run_end_stops(content, t1);
    crate::text::lemma_space_run_all_spaces(content, p);
    crate::text::lemma_space_run_all_spaces(content, t1);
    let c = parse_spec(Some(id), false, content)->0;
    assert(content.subrange(0, p) == pfx);
    assert(content =~= content.subrange(0, p) + content.subrange(p, t0) + content.subrange(
        t0,
        content.len() as int,
    ));
    assert(c.entire =~= c.trigger + content.subrange(t1, a0) + c.argument);
    if c.trigger.len() == 0 {
        assert(t1 == t0);
        assert(a0 == t0);
        assert(c.argument == c.entire);
    }
}

/// Extracts a command from a raw message.
pub fn parse(bot_id: Option<u64>, is_direct: bool, content: &str) -> (r: Option<Command>)
    ensures
        r is Some <==> parse_spec(bot_id, is_direct, content@) is Some,
        r is Some ==> r->0.entire@ == parse_spec(bot_id, is_direct, content@)->0.entire,
        r is Some ==> r->0.trigger@ == parse_spec(bot_id, is_direct, content@)->0.trigger,
        r is Some ==> r->0.argument@ == parse_spec(bot_id, is_direct, content@)->0.argument,
{
    if let Some(id) = bot_id {
        let dec = u64_to_dec(id);
        let mut plain = String::new();
        plain.append("<@");
        plain.append(dec.as_str());
        plain.append(">");
        let mut bang = String::new();
        bang.append("<@!");
        bang.append(dec.as_str());
        bang.append(">");
        proof {
            reveal_strlit("<@");
            reveal_strlit("<@!");
            reveal_strlit(">");
            assert(plain@ =~= bot_prefix(id, false));
            assert(bang@ =~= bot_prefix(id, true));
        }
        if check_match_at(content, 0, plain.as_str()) {
            return Some(split_after(content, plain.unicode_len()));
        }
        if check_match_at(content, 0, bang.as_str()) {
            return Some(split_after(content, bang.unicode_len()));
        }
    }
    if is_direct {
        let n: usize = content.unicode_len();
        let t1 = nonspace_run_end_at(content, 0);
        let a0 = space_run_end_at(content, t1);
        return Some(
            Command {
                entire: content.to_owned(),
                trigger: content.substring_char(0, t1).to_owned(),
                argument: content.substring_char(a0, n).to_owned(),
            },
        );
    }
    None
}

/// The prefixed split, starting right after a prefix of `p` characters.
fn split_after(content: &str, p: usize) -> (c: Command)
    requires
        p <= content@.len(),
    ensures
        c.entire@ == prefixed_split(content@, p as int).entire,
        c.trigger@ == prefixed_split(content@, p as int).trigger,
        c.argument@ == prefixed_split(content@, p as int).argument,
{
    let n: usize = content.unicode_len();
    let t0 = space_run_end_at(content, p);
    let t1 = nonspace_run_end_at(content, t0);
    let a0 = space_run_end_at(content, t1);
    Command {
        entire: content.substring_char(t0, n).to_owned(),
        trigger: content.substring_char(t0, t1).to_owned(),
        argument: content.substring_char(a0, n).to_owned(),
    }
}

} // verus!
