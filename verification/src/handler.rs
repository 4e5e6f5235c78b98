//! The message handler's decision core: from one incoming message and the
//! current session state to the action the bot takes.
//!
//! A bot's own message is ignored. A message that parses to a command is
//! dispatched: an empty command gets a short reply; `auth` and `quit` in a
//! direct channel drive the authorization state; everything else picks a
//! template — by trigger, else the default — and renders the caption onto a
//! copy of its image.

use vstd::prelude::*;

use crate::bitmap::Bitmap;
use crate::catalog::Catalog;
use crate::catalog::find_by_command;
use crate::catalog::find_command_spec;
use crate::catalog::find_default;
use crate::catalog::find_default_spec;
use crate::command::parse;
use crate::command::parse_spec;
use crate::bitmap::pixel_trace;
use crate::layout::drawn_lines;
use crate::layout::render;
use crate::mentions::GuildRefs;
use crate::mentions::MentionUser;
use crate::mentions::expand_mentions;
use crate::mentions::expand_spec;
use crate::mentions::guild_channels;
use crate::mentions::guild_roles;
use crate::session::AuthReply;
use crate::session::BotSettings;
use crate::session::admins_after_auth;
use crate::session::password_view;
use crate::session::quit_accepted;
use crate::text::lower_of;
use crate::text::str_eq;
use crate::text::to_lower;
use crate::text::to_upper;
use crate::text::upper_of;

verus! {

/// One incoming message, as the connection hands it over: its text, its
/// sender, whether it came through a direct channel, and the references
/// resolved around it.
pub struct MessageInfo {
    pub content: String,
    pub author_id: u64,
    pub author_is_bot: bool,
    pub is_direct: bool,
    pub mentions: Vec<MentionUser>,
    pub guild: Option<GuildRefs>,
}

/// What the bot does in answer to one message.
pub enum Action {
    /// Nothing: not a command, or the bot's own message.
    Ignore,
    /// Send this text back to the channel.
    Reply(String),
    /// An `auth` attempt ran with this outcome. The caller logs it with the
    /// attempting identifier, confirms a grant or a repeat, and says nothing
    /// to a denial beyond the fixed non-response.
    Auth(AuthReply),
    /// Shut all connections down: an authorized `quit`.
    Shutdown,
    /// Deliver this rendered image, under this file name, captioned with
    /// this expanded text.
    Send { image: Bitmap, filename: String, caption: String },
}

/// The caption a template renders for a chosen text: prefix, the uppercased
/// text, suffix, all mention tokens then expanded.
pub open spec fn caption_spec(
    prefix: Seq<char>,
    text: Seq<char>,
    suffix: Seq<char>,
    msg: &MessageInfo,
) -> Seq<char> {
    expand_spec(
        prefix + upper_of(text) + suffix,
        msg.mentions@,
        guild_channels(spec_guild(msg)),
        guild_roles(spec_guild(msg)),
    )
}

/// The optional guild context of a message, as the expander takes it.
pub open spec fn spec_guild(msg: &MessageInfo) -> Option<&GuildRefs> {
    match msg.guild {
        None => None,
        Some(ref g) => Some(g),
    }
}

/// Decides and carries out the bot's answer to one message.
///
/// The clauses follow the dispatch: the bot's own messages and non-commands
/// are ignored; an empty command is answered `Yes?`; in a direct channel
/// `auth` drives the authorization step and `quit` from an authorized sender
/// shuts down — and from nobody else; any other command picks the first
/// template bound to its lowercased trigger, else the first default
/// template (rendering the whole command text), else apologizes; a missing
/// font store refuses the render. Only the `auth` step ever changes the
/// session state.
#[verifier::rlimit(80)]
pub fn plan_message(settings: &mut BotSettings, catalog: &Catalog, msg: &MessageInfo) -> (r:
    Action)
    ensures
        final (settings).id == old(settings).id,
        final (settings).admin_password == old(settings).admin_password,
        ({
            let parsed = parse_spec(old(settings).id, msg.is_direct, msg.content@);
            let auth_step = parsed is Some && parsed->0.entire.len() > 0 && msg.is_direct
                && lower_of(parsed->0.trigger) == "auth"@;
            &&& (msg.author_is_bot ==> r is Ignore)
            &&& (!msg.author_is_bot && parsed is None ==> r is Ignore)
            &&& (!msg.author_is_bot && parsed is Some && parsed->0.entire.len() == 0 ==> (r
                matches Action::Reply(t) && t@ == "Yes?"@))
            &&& (!msg.author_is_bot && auth_step ==> final (settings).admin_ids@
                == admins_after_auth(
                old(settings).admin_ids@,
                password_view(old(settings).admin_password),
                msg.author_id,
                parsed->0.argument,
            ))
            &&& (!msg.author_is_bot && auth_step ==> (r matches Action::Auth(rep) && (rep
                is Granted <==> crate::session::auth_granted(
                old(settings).admin_ids@,
                password_view(old(settings).admin_password),
                msg.author_id,
                parsed->0.argument,
            )) && (rep is AlreadyAuthorized <==> old(settings).admin_ids@.contains(
                msg.author_id,
            ))))
            &&& (!(!msg.author_is_bot && auth_step) ==> final (settings).admin_ids == old(
                settings,
            ).admin_ids)
            &&& (r is Shutdown ==> !msg.author_is_bot && parsed is Some && msg.is_direct
                && lower_of(parsed->0.trigger) == "quit"@ && quit_accepted(
                old(settings).admin_ids@,
                msg.author_id,
            ))
            &&& (!msg.author_is_bot && parsed is Some && parsed->0.entire.len() > 0
                && msg.is_direct && lower_of(parsed->0.trigger) == "quit"@ && quit_accepted(
                old(settings).admin_ids@,
                msg.author_id,
            ) ==> r is Shutdown)
            &&& (!msg.author_is_bot && parsed is Some && parsed->0.entire.len() > 0 && !auth_step
                && !(msg.is_direct && lower_of(parsed->0.trigger) == "quit"@ && quit_accepted(
                old(settings).admin_ids@,
                msg.author_id,
            )) ==> ({
                let trigger = lower_of(parsed->0.trigger);
                let by_cmd = find_command_spec(catalog.memes@, trigger, 0);
                let by_default = find_default_spec(catalog.memes@, 0);
                &&& (by_cmd is None && by_default is None ==> (r matches Action::Reply(t) && t@
                    == "I have no idea what's going on. (No memes loaded.)"@))
                &&& ((by_cmd is Some || by_default is Some) && catalog.fonts.names().len() == 0
                    ==> (r matches Action::Reply(t) && t@
                    == "I don't know how to say this...Literally. (No fonts loaded.)"@))
                &&& (by_cmd matches Some(idx) ==> (catalog.fonts.names().len() > 0 ==> (r
                    matches Action::Send { image, filename, caption } && image.width
                    == catalog.memes@[idx].image.width && image.height
                    == catalog.memes@[idx].image.height && filename@ == catalog.memes@[idx].command@
                    + ".png"@ && caption@ == caption_spec(
                    catalog.memes@[idx].text_prefix@,
                    parsed->0.argument,
                    catalog.memes@[idx].text_suffix@,
                    msg,
                ) && drawn_lines(
                    pixel_trace(image.pixels),
                    pixel_trace(catalog.memes@[idx].image.pixels),
                    catalog.memes@[idx].center_x,
                    catalog.memes@[idx].center_y,
                    catalog.memes@[idx].font_size,
                    caption@,
                ))))
                &&& (by_cmd is None ==> (by_default matches Some(idx) ==> (
                    catalog.fonts.names().len() > 0 ==> (r matches Action::Send {
                        image,
                        filename,
                        caption,
                    } && image.width == catalog.memes@[idx].image.width && image.height
                        == catalog.memes@[idx].image.height && filename@
                        == catalog.memes@[idx].command@ + ".png"@ && caption@ == caption_spec(
                        catalog.memes@[idx].text_prefix@,
                        parsed->0.entire,
                        catalog.memes@[idx].text_suffix@,
                        msg,
                    ) && drawn_lines(
                        pixel_trace(image.pixels),
                        pixel_trace(catalog.memes@[idx].image.pixels),
                        catalog.memes@[idx].center_x,
                        catalog.memes@[idx].center_y,
                        catalog.memes@[idx].font_size,
                        caption@,
                    )))))
            }))
        }),
{
    proof {
        reveal_strlit("auth");
        reveal_strlit("quit");
        assert("auth"@[0] == 'a' && "quit"@[0] == 'q');
        assert("auth"@ != "quit"@);
    }
    if msg.author_is_bot {
        return Action::Ignore;
    }
    let command = match parse(settings.id, msg.is_direct, msg.content.as_str()) {
        None => {
            return Action::Ignore;
        },
        Some(c) => c,
    };
    if command.entire.as_str().unicode_len() == 0 {
        return Action::Reply("Yes?".to_owned());
    }
    let first_word = to_lower(command.trigger.as_str());
    if msg.is_direct && str_eq(first_word.as_str(), "auth") {
        let reply = settings.try_authorize(msg.author_id, command.argument.as_str());
        return Action::Auth(reply);
    }
    if msg.is_direct && str_eq(first_word.as_str(), "quit") && settings.is_admin(msg.author_id) {
        return Action::Shutdown;
    }
    let (meme_idx, text) = match find_by_command(&catalog.memes, first_word.as_str()) {
        Some(idx) => (idx, command.argument.as_str()),
        None => match find_default(&catalog.memes) {
            Some(idx) => (idx, command.entire.as_str()),
            None => {
                return Action::Reply("I have no idea what's going on. (No memes loaded.)".to_owned());
            },
        },
    };
    let meme = &catalog.memes[meme_idx];
    let font_idx = match catalog.fonts.pick_font(meme.font.as_str()) {
        Some(idx) => idx,
        None => {
            return Action::Reply(
                "I don't know how to say this...Literally. (No fonts loaded.)".to_owned(),
            );
        },
    };
    let font = catalog.fonts.get_font(font_idx);
    let mut caption = meme.text_prefix.clone();
    caption.append(to_upper(text).as_str());
    caption.append(meme.text_suffix.as_str());
    let guild: Option<&GuildRefs> = match &msg.guild {
        None => None,
        Some(g) => Some(g),
    };
    let caption = expand_mentions(caption.as_str(), &msg.mentions, guild);
    let image = render(meme, font, caption.as_str());
    let mut filename = meme.command.clone();
    filename.append(".png");
    Action::Send { image, filename, caption }
}

} // verus!
