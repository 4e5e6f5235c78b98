//! The mention expander: rewrites raw reference tokens embedded in message
//! text into their display forms.
//!
//! Four token shapes exist. A user mention `<@id>` (or `<@!id>`) becomes
//! `@name` for a user the message resolved, else `@id`. A channel mention
//! `<#id>` becomes `#name` when the guild context resolves it, else the
//! literal `#deleted-channel`. A role mention `<@&id>` becomes `@name` or
//! `@deleted-role`. A custom emoji `<a?:name:id>` becomes `:name:`. Each
//! category is resolved to a fixed point before the next one, in that order.
//! An id is 1 to 32 Unicode decimal digits; one written with digits outside
//! the ASCII kind, or whose value does not fit `u64`, falls back to `0`.

use vstd::prelude::*;

use crate::text::count_char;
use crate::text::count_char_in;
use crate::text::mention_id_value;
use crate::text::mention_digit_run_end;
use crate::text::mention_digit_run_end_at;
use crate::text::emoji_name_run_end;
use crate::text::emoji_name_run_end_at;
use crate::text::is_mention_digit;
use crate::text::is_emoji_name_char;
use crate::text::lemma_mention_digit_run_end_bounds;
use crate::text::lemma_emoji_name_run_end_bounds;
use crate::text::matches_at;
use crate::text::check_match_at;
use crate::text::parse_mention_id;

verus! {

/// A user the message mentions, as the connection resolved it.
pub struct MentionUser {
    pub id: u64,
    pub name: String,
}

/// A channel or role of the originating guild, resolvable by id.
pub struct NamedRef {
    pub id: u64,
    pub name: String,
}

/// The resolvable guild state around a message. A message from a direct
/// channel (or one whose guild is not cached) has none.
pub struct GuildRefs {
    pub channels: Vec<NamedRef>,
    pub roles: Vec<NamedRef>,
}

/// The four mention token shapes.
pub enum TokenKind {
    User,
    Channel,
    Role,
    Emoji,
}

/// If a token of shape `kind` starts at position `i` of `s`, its end
/// (exclusive); `None` otherwise. Digit runs are accepted only when 1 to 32
/// digits long, mirroring the `{1,32}` bound of the message grammar.
pub open spec fn token_end(kind: TokenKind, s: Seq<char>, i: int) -> Option<int> {
    match kind {
        TokenKind::User => {
            if 0 <= i && i + 2 <= s.len() && s[i] == '<' && s[i + 1] == '@' {
                let j = if i + 2 < s.len() && s[i + 2] == '!' {
                    i + 3
                } else {
                    i + 2
                };
                let e = mention_digit_run_end(s, j);
                if 1 <= e - j <= 32 && e < s.len() && s[e] == '>' {
                    Some(e + 1)
                } else {
                    None
                }
            } else {
                None
            }
        },
        TokenKind::Channel => {
            if 0 <= i && i + 2 <= s.len() && s[i] == '<' && s[i + 1] == '#' {
                let e = mention_digit_run_end(s, i + 2);
                if 1 <= e - (i + 2) <= 32 && e < s.len() && s[e] == '>' {
                    Some(e + 1)
                } else {
                    None
                }
            } else {
                None
            }
        },
        TokenKind::Role => {
            if 0 <= i && i + 3 <= s.len() && s[i] == '<' && s[i + 1] == '@' && s[i + 2] == '&' {
                let e = mention_digit_run_end(s, i + 3);
                if 1 <= e - (i + 3) <= 32 && e < s.len() && s[e] == '>' {
                    Some(e + 1)
                } else {
                    None
                }
            } else {
                None
            }
        },
        TokenKind::Emoji => {
            if 0 <= i && i < s.len() && s[i] == '<' {
                let j = if i + 1 < s.len() && s[i + 1] == 'a' {
                    i + 2
                } else {
                    i + 1
                };
                if j < s.len() && s[j] == ':' {
                    let k = emoji_name_run_end(s, j + 1);
                    if k - (j + 1) >= 1 && k < s.len() && s[k] == ':' {
                        let e = mention_digit_run_end(s, k + 1);
                        if 1 <= e - (k + 1) <= 32 && e < s.len() && s[e] == '>' {
                            Some(e + 1)
                        } else {
                            None
                        }
                    } else {
                        None
                    }
                } else {
                    None
                }
            } else {
                None
            }
        },
    }
}

/// The leftmost token of shape `kind` at or after position `i`, as a
/// (start, end) pair.
pub open spec fn find_token_from(kind: TokenKind, s: Seq<char>, i: int) -> Option<(int, int)>
    decreases s.len() - i,
{
    if 0 <= i < s.len() {
        if token_end(kind, s, i) is Some {
            Some((i, token_end(kind, s, i)->0))
        } else {
            find_token_from(kind, s, i + 1)
        }
    } else {
        None
    }
}

/// `s` holds a token of shape `kind` somewhere.
pub open spec fn has_token(kind: TokenKind, s: Seq<char>) -> bool {
    find_token_from(kind, s, 0) is Some
}

/// No mention token of any shape remains in `s`: the text is fully
/// expanded.
pub open spec fn mention_free(s: Seq<char>) -> bool {
    &&& !has_token(TokenKind::User, s)
    &&& !has_token(TokenKind::Channel, s)
    &&& !has_token(TokenKind::Role, s)
    &&& !has_token(TokenKind::Emoji, s)
}

pub proof fn lemma_token_end_bounds(kind: TokenKind, s: Seq<char>, i: int)
    ensures
        token_end(kind, s, i) is Some ==> i < token_end(kind, s, i)->0 <= s.len(),
{
    if token_end(kind, s, i) is Some {
        match kind {
            TokenKind::User => {
                let j = if i + 2 < s.len() && s[i + 2] == '!' {
                    i + 3
                } else {
                    i + 2
                };
                lemma_mention_digit_run_end_bounds(s, j);
            },
            TokenKind::Channel => {
                lemma_mention_digit_run_end_bounds(s, i + 2);
            },
            TokenKind::Role => {
                lemma_mention_digit_run_end_bounds(s, i + 3);
            },
            TokenKind::Emoji => {
                let j = if i + 1 < s.len() && s[i + 1] == 'a' {
                    i + 2
                } else {
                    i + 1
                };
                lemma_emoji_name_run_end_bounds(s, j + 1);
                lemma_mention_digit_run_end_bounds(s, emoji_name_run_end(s, j + 1) + 1);
            },
        }
    }
}

/// If a token of shape `kind` starts at `i` of `s`, its end; `None`
/// otherwise.
pub fn token_end_at(kind: &TokenKind, s: &str, i: usize) -> (r: Option<usize>)
    requires
        i < s@.len(),
    ensures
        r is Some <==> token_end(*kind, s@, i as int) is Some,
        r is Some ==> token_end(*kind, s@, i as int)->0 == r->0 as int,
{
    let n: usize = s.unicode_len();
    match kind {
        TokenKind::User => {
            if n - i >= 2 && s.get_char(i) == '<' && s.get_char(i + 1) == '@' {
                let j: usize = if n - i > 2 && s.get_char(i + 2) == '!' {
                    i + 3
                } else {
                    i + 2
                };
                let e = mention_digit_run_end_at(s, j);
                if e - j >= 1 && e - j <= 32 && e < n && s.get_char(e) == '>' {
                    Some(e + 1)
                } else {
                    None
                }
            } else {
                None
            }
        },
        TokenKind::Channel => {
            if n - i >= 2 && s.get_char(i) == '<' && s.get_char(i + 1) == '#' {
                let e = mention_digit_run_end_at(s, i + 2);
                if e - (i + 2) >= 1 && e - (i + 2) <= 32 && e < n && s.get_char(e) == '>' {
                    Some(e + 1)
                } else {
                    None
                }
            } else {
                None
            }
        },
        TokenKind::Role => {
            if n - i >= 3 && s.get_char(i) == '<' && s.get_char(i + 1) == '@' && s.get_char(i + 2)
                == '&' {
                let e = mention_digit_run_end_at(s, i + 3);
                if e - (i + 3) >= 1 && e - (i + 3) <= 32 && e < n && s.get_char(e) == '>' {
                    Some(e + 1)
                } else {
                    None
                }
            } else {
                None
            }
        },
        TokenKind::Emoji => {
            if s.get_char(i) == '<' {
                let j: usize = if n - i > 1 && s.get_char(i + 1) == 'a' {
                    i + 2
                } else {
                    i + 1
                };
                if j < n && s.get_char(j) == ':' {
                    let k = emoji_name_run_end_at(s, j + 1);
                    if k - (j + 1) >= 1 && k < n && s.get_char(k) == ':' {
                        let e = mention_digit_run_end_at(s, k + 1);
                        if e - (k + 1) >= 1 && e - (k + 1) <= 32 && e < n && s.get_char(e) == '>' {
                            Some(e + 1)
                        } else {
                            None
                        }
                    } else {
                        None
                    }
                } else {
                    None
                }
            } else {
                None
            }
        },
    }
}

/// The leftmost token of shape `kind` in `s`.
pub fn find_token(kind: &TokenKind, s: &str) -> (r: Option<(usize, usize)>)
    ensures
        r is Some <==> find_token_from(*kind, s@, 0) is Some,
        r is Some ==> find_token_from(*kind, s@, 0) == Some(
            ((r->0).0 as int, (r->0).1 as int),
        ),
        r is Some ==> token_end(*kind, s@, (r->0).0 as int) == Some((r->0).1 as int),
        r is Some ==> 0 <= (r->0).0 < (r->0).1 <= s@.len(),
{
    let n: usize = s.unicode_len();
    let mut i: usize = 0;
    loop
        invariant
            0 <= i <= n,
            n == s@.len(),
            find_token_from(*kind, s@, 0) == find_token_from(*kind, s@, i as int),
        ensures
            i == n,
            find_token_from(*kind, s@, 0) is None,
        decreases n - i,
    {
        if i == n {
            break ;
        }
        let r = token_end_at(kind, s, i);
        if let Some(e) = r {
            proof {
                lemma_token_end_bounds(*kind, s@, i as int);
            }
            return Some((i, e));
        }
        i = i + 1;
    }
    None
}

/// Replaces every (non-overlapping, leftmost-first) occurrence of `pat` in
/// `s` with `r`, the way `str::replace` does.
pub open spec fn replace_all_spec(s: Seq<char>, pat: Seq<char>, r: Seq<char>) -> Seq<char>
    decreases s.len(),
{
    if pat.len() == 0 || s.len() < pat.len() {
        s
    } else if s.subrange(0, pat.len() as int) == pat {
        r + replace_all_spec(s.subrange(pat.len() as int, s.len() as int), pat, r)
    } else {
        seq![s[0]] + replace_all_spec(s.subrange(1, s.len() as int), pat, r)
    }
}

/// Replaces every occurrence of `pat` in `s` with `rep`.
pub fn replace_all(s: &str, pat: &str, rep: &str) -> (out: String)
    requires
        pat@.len() >= 1,
    ensures
        out@ == replace_all_spec(s@, pat@, rep@),
{
    let n: usize = s.unicode_len();
    let m: usize = pat.unicode_len();
    let mut out = String::new();
    let mut i: usize = 0;
    proof {
        assert(s@.subrange(0, n as int) =~= s@);
        assert(out@ + replace_all_spec(s@, pat@, rep@) =~= replace_all_spec(s@, pat@, rep@));
    }
    loop
        invariant
            0 <= i <= n,
            n == s@.len(),
            m == pat@.len(),
            m >= 1,
            replace_all_spec(s@, pat@, rep@) == out@ + replace_all_spec(
                s@.subrange(i as int, n as int),
                pat@,
                rep@,
            ),
        ensures
            i == n,
            replace_all_spec(s@, pat@, rep@) == out@ + replace_all_spec(
                s@.subrange(i as int, n as int),
                pat@,
                rep@,
            ),
        decreases n - i,
    {
        if i == n {
            break ;
        }
        let ghost suf = s@.subrange(i as int, n as int);
        if check_match_at(s, i, pat) {
            proof {
                assert(suf.subrange(0, m as int) =~= s@.subrange(i as int, (i + m) as int));
                assert(suf.subrange(m as int, suf.len() as int) =~= s@.subrange(
                    (i + m) as int,
                    n as int,
                ));
            }
            out.append(rep);
            i = i + m;
        } else {
            if n - i >= m {
                proof {
                    assert(suf.subrange(0, m as int) =~= s@.subrange(i as int, (i + m) as int));
                    assert(suf.subrange(1, suf.len() as int) =~= s@.subrange(
                        (i + 1) as int,
                        n as int,
                    ));
                    assert(suf =~= seq![s@[i as int]] + s@.subrange((i + 1) as int, n as int));
                }
            } else {
                proof {
                    let rest = s@.subrange((i + 1) as int, n as int);
                    assert(replace_all_spec(suf, pat@, rep@) == suf);
                    assert(replace_all_spec(rest, pat@, rep@) == rest);
                    assert(suf =~= seq![s@[i as int]] + rest);
                }
            }
            let c = s.substring_char(i, i + 1);
            proof {
                assert(c@ =~= seq![s@[i as int]]);
            }
            out.append(c);
            i = i + 1;
        }
    }
    proof {
        assert(s@.subrange(n as int, n as int) =~= Seq::<char>::empty());
        assert(replace_all_spec(Seq::<char>::empty(), pat@, rep@) == Seq::<char>::empty());
        assert(out@ =~= out@ + Seq::<char>::empty());
    }
    out
}

/// Where a user token's digits start: after `<@`, or after `<@!` when the
/// nickname marker is present.
pub open spec fn user_digits_start(s: Seq<char>, i: int) -> int {
    if i + 2 < s.len() && s[i + 2] == '!' {
        i + 3
    } else {
        i + 2
    }
}

/// The name of the first listed user with this id, if any.
pub open spec fn first_user_name_from(users: Seq<MentionUser>, id: u64, k: int) -> Option<
    Seq<char>,
>
    decreases users.len() - k,
{
    if 0 <= k < users.len() {
        if users[k].id == id {
            Some(users[k].name@)
        } else {
            first_user_name_from(users, id, k + 1)
        }
    } else {
        None
    }
}

/// The name of the first listed channel or role with this id, if any.
pub open spec fn first_ref_name_from(refs: Seq<NamedRef>, id: u64, k: int) -> Option<Seq<char>>
    decreases refs.len() - k,
{
    if 0 <= k < refs.len() {
        if refs[k].id == id {
            Some(refs[k].name@)
        } else {
            first_ref_name_from(refs, id, k + 1)
        }
    } else {
        None
    }
}

/// What a user token `s[i..e]` is replaced with: `@name` for a resolved
/// user, else `@` followed by the token's own digits.
pub open spec fn user_repl(s: Seq<char>, i: int, e: int, users: Seq<MentionUser>) -> Seq<char> {
    let digits = s.subrange(user_digits_start(s, i), e - 1);
    match first_user_name_from(users, mention_id_value(digits), 0) {
        Some(name) => seq!['@'] + name,
        None => seq!['@'] + digits,
    }
}

/// What a channel token `s[i..e]` is replaced with: `#name` when the guild
/// context resolves the id, else the literal `#deleted-channel` (also used
/// whenever there is no guild context at all).
pub open spec fn channel_repl(s: Seq<char>, i: int, e: int, chans: Option<Seq<NamedRef>>) -> Seq<
    char,
> {
    match chans {
        None => "#deleted-channel"@,
        Some(list) => {
            let digits = s.subrange(i + 2, e - 1);
            match first_ref_name_from(list, mention_id_value(digits), 0) {
                Some(name) => seq!['#'] + name,
                None => "#deleted-channel"@,
            }
        },
    }
}

/// What a role token `s[i..e]` is replaced with: `@name` when resolved,
/// else the literal `@deleted-role`.
pub open spec fn role_repl(s: Seq<char>, i: int, e: int, roles: Option<Seq<NamedRef>>) -> Seq<
    char,
> {
    match roles {
        None => "@deleted-role"@,
        Some(list) => {
            let digits = s.subrange(i + 3, e - 1);
            match first_ref_name_from(list, mention_id_value(digits), 0) {
                Some(name) => seq!['@'] + name,
                None => "@deleted-role"@,
            }
        },
    }
}

/// What an emoji token `s[i..e]` is replaced with: its `:name:` part, the
/// angle brackets, animation marker and id stripped.
pub open spec fn emoji_repl(s: Seq<char>, i: int, e: int) -> Seq<char> {
    let j = if i + 1 < s.len() && s[i + 1] == 'a' {
        i + 2
    } else {
        i + 1
    };
    let k = emoji_name_run_end(s, j + 1);
    s.subrange(j, k + 1)
}

#[verifier::loop_isolation(false)]
fn user_replacement(s: &str, i: usize, e: usize, users: &Vec<MentionUser>) -> (r: String)
    requires
        token_end(TokenKind::User, s@, i as int) == Some(e as int),
    ensures
        r@ == user_repl(s@, i as int, e as int, users@),
{
    proof {
        lemma_token_end_bounds(TokenKind::User, s@, i as int);
    }
    let n: usize = s.unicode_len();
    let j: usize = if n - i > 2 && s.get_char(i + 2) == '!' {
        i + 3
    } else {
        i + 2
    };
    proof {
        crate::text::lemma_mention_digit_run_all(s@, j as int);
    }
    let id = parse_mention_id(s, j, e - 1);
    let ghost digits = s@.subrange(j as int, e - 1);
    let mut k: usize = 0;
    while k < users.len()
        invariant
            0 <= k <= users@.len(),
            first_user_name_from(users@, id, 0) == first_user_name_from(users@, id, k as int),
        decreases users@.len() - k,
    {
        if users[k].id == id {
            let mut r = String::new();
            r.append("@");
            r.append(users[k].name.as_str());
            proof {
                reveal_strlit("@");
                assert(j as int == user_digits_start(s@, i as int));
                assert(first_user_name_from(users@, id, k as int) == Some(
                    users@[k as int].name@,
                ));
                assert(r@ =~= seq!['@'] + users@[k as int].name@);
                assert(r@ =~= user_repl(s@, i as int, e as int, users@));
            }
            return r;
        }
        k = k + 1;
    }
    let mut r = String::new();
    r.append("@");
    r.append(s.substring_char(j, e - 1));
    proof {
        reveal_strlit("@");
        assert(r@ =~= user_repl(s@, i as int, e as int, users@));
    }
    r
}

#[verifier::loop_isolation(false)]
fn channel_replacement(s: &str, i: usize, e: usize, chans: Option<&Vec<NamedRef>>) -> (r: String)
    requires
        token_end(TokenKind::Channel, s@, i as int) == Some(e as int),
    ensures
        r@ == channel_repl(s@, i as int, e as int, named_view(chans)),
{
    proof {
        lemma_token_end_bounds(TokenKind::Channel, s@, i as int);
    }
    match chans {
        None => "#deleted-channel".to_owned(),
        Some(list) => {
            proof {
                crate::text::lemma_mention_digit_run_all(s@, i + 2);
            }
            let id = parse_mention_id(s, i + 2, e - 1);
            let mut k: usize = 0;
            while k < list.len()
                invariant
                    0 <= k <= list@.len(),
                    first_ref_name_from(list@, id, 0) == first_ref_name_from(list@, id, k as int),
                decreases list@.len() - k,
            {
                if list[k].id == id {
                    let mut r = String::new();
                    r.append("#");
                    r.append(list[k].name.as_str());
                    proof {
                        reveal_strlit("#");
                        assert(r@ =~= channel_repl(s@, i as int, e as int, named_view(chans)));
                    }
                    return r;
                }
                k = k + 1;
            }
            "#deleted-channel".to_owned()
        },
    }
}

#[verifier::loop_isolation(false)]
fn role_replacement(s: &str, i: usize, e: usize, roles: Option<&Vec<NamedRef>>) -> (r: String)
    requires
        token_end(TokenKind::Role, s@, i as int) == Some(e as int),
    ensures
        r@ == role_repl(s@, i as int, e as int, named_view(roles)),
{
    proof {
        lemma_token_end_bounds(TokenKind::Role, s@, i as int);
    }
    match roles {
        None => "@deleted-role".to_owned(),
        Some(list) => {
            proof {
                crate::text::lemma_mention_digit_run_all(s@, i + 3);
            }
            let id = parse_mention_id(s, i + 3, e - 1);
            let mut k: usize = 0;
            while k < list.len()
                invariant
                    0 <= k <= list@.len(),
                    first_ref_name_from(list@, id, 0) == first_ref_name_from(list@, id, k as int),
                decreases list@.len() - k,
            {
                if list[k].id == id {
                    let mut r = String::new();
                    r.append("@");
                    r.append(list[k].name.as_str());
                    proof {
                        reveal_strlit("@");
                        assert(r@ =~= role_repl(s@, i as int, e as int, named_view(roles)));
                    }
                    return r;
                }
                k = k + 1;
            }
            "@deleted-role".to_owned()
        },
    }
}

fn emoji_replacement(s: &str, i: usize, e: usize) -> (r: String)
    requires
        token_end(TokenKind::Emoji, s@, i as int) == Some(e as int),
    ensures
        r@ == emoji_repl(s@, i as int, e as int),
{
    proof {
        lemma_token_end_bounds(TokenKind::Emoji, s@, i as int);
    }
    let n: usize = s.unicode_len();
    let j: usize = if n - i > 1 && s.get_char(i + 1) == 'a' {
        i + 2
    } else {
        i + 1
    };
    let k = emoji_name_run_end_at(s, j + 1);
    s.substring_char(j, k + 1).to_owned()
}

/// The channel or role list of an optional guild argument.
pub open spec fn named_view(refs: Option<&Vec<NamedRef>>) -> Option<Seq<NamedRef>> {
    match refs {
        None => None,
        Some(v) => Some(v@),
    }
}

/// User tokens resolved to a fixed point: while one remains, all occurrences
/// of the leftmost one are replaced at once, then the text is scanned again
/// (a replacement can juxtapose characters into a new token). `fuel` bounds
/// the iteration; the callers pass the count of `<` characters, which every
/// round of ordinary replacement lowers by at least one.
pub open spec fn fix_user(t: Seq<char>, users: Seq<MentionUser>, fuel: nat) -> Seq<char>
    decreases fuel,
{
    if fuel == 0 {
        t
    } else {
        match find_token_from(TokenKind::User, t, 0) {
            None => t,
            Some(ie) => fix_user(
                replace_all_spec(t, t.subrange(ie.0, ie.1), user_repl(t, ie.0, ie.1, users)),
                users,
                (fuel - 1) as nat,
            ),
        }
    }
}

/// Channel tokens resolved to a fixed point, like `fix_user`.
pub open spec fn fix_channel(t: Seq<char>, chans: Option<Seq<NamedRef>>, fuel: nat) -> Seq<char>
    decreases fuel,
{
    if fuel == 0 {
        t
    } else {
        match find_token_from(TokenKind::Channel, t, 0) {
            None => t,
            Some(ie) => fix_channel(
                replace_all_spec(t, t.subrange(ie.0, ie.1), channel_repl(t, ie.0, ie.1, chans)),
                chans,
                (fuel - 1) as nat,
            ),
        }
    }
}

/// Role tokens resolved to a fixed point, like `fix_user`.
pub open spec fn fix_role(t: Seq<char>, roles: Option<Seq<NamedRef>>, fuel: nat) -> Seq<char>
    decreases fuel,
{
    if fuel == 0 {
        t
    } else {
        match find_token_from(TokenKind::Role, t, 0) {
            None => t,
            Some(ie) => fix_role(
                replace_all_spec(t, t.subrange(ie.0, ie.1), role_repl(t, ie.0, ie.1, roles)),
                roles,
                (fuel - 1) as nat,
            ),
        }
    }
}

/// Emoji tokens resolved to a fixed point, like `fix_user`.
pub open spec fn fix_emoji(t: Seq<char>, fuel: nat) -> Seq<char>
    decreases fuel,
{
    if fuel == 0 {
        t
    } else {
        match find_token_from(TokenKind::Emoji, t, 0) {
            None => t,
            Some(ie) => fix_emoji(
                replace_all_spec(t, t.subrange(ie.0, ie.1), emoji_repl(t, ie.0, ie.1)),
                (fuel - 1) as nat,
            ),
        }
    }
}

/// The whole expansion: users, then channels, then roles, then emoji, each
/// category taken to its fixed point before the next.
pub open spec fn expand_spec(
    t: Seq<char>,
    users: Seq<MentionUser>,
    chans: Option<Seq<NamedRef>>,
    roles: Option<Seq<NamedRef>>,
) -> Seq<char> {
    let t1 = fix_user(t, users, count_char(t, '<'));
    let t2 = fix_channel(t1, chans, count_char(t1, '<'));
    let t3 = fix_role(t2, roles, count_char(t2, '<'));
    fix_emoji(t3, count_char(t3, '<'))
}

fn expand_user_tokens(text: String, users: &Vec<MentionUser>) -> (out: String)
    ensures
        out@ == fix_user(text@, users@, count_char(text@, '<')),
{
    let mut cur = text;
    let mut fuel: usize = count_char_in(cur.as_str(), '<');
    let ghost target = fix_user(cur@, users@, fuel as nat);
    loop
        invariant
            fix_user(cur@, users@, fuel as nat) == target,
        ensures
            cur@ == target,
        decreases fuel,
    {
        if fuel == 0 {
            break ;
        }
        match find_token(&TokenKind::User, cur.as_str()) {
            None => {
                break ;
            },
            Some((i, e)) => {
                let token = cur.as_str().substring_char(i, e).to_owned();
                let rep = user_replacement(cur.as_str(), i, e, users);
                let next = replace_all(cur.as_str(), token.as_str(), rep.as_str());
                cur = next;
                fuel = fuel - 1;
            },
        }
    }
    cur
}

fn expand_channel_tokens(text: String, chans: Option<&Vec<NamedRef>>) -> (out: String)
    ensures
        out@ == fix_channel(text@, named_view(chans), count_char(text@, '<')),
{
    let mut cur = text;
    let mut fuel: usize = count_char_in(cur.as_str(), '<');
    let ghost target = fix_channel(cur@, named_view(chans), fuel as nat);
    loop
        invariant
            fix_channel(cur@, named_view(chans), fuel as nat) == target,
        ensures
            cur@ == target,
        decreases fuel,
    {
        if fuel == 0 {
            break ;
        }
        match find_token(&TokenKind::Channel, cur.as_str()) {
            None => {
                break ;
            },
            Some((i, e)) => {
                let token = cur.as_str().substring_char(i, e).to_owned();
                let rep = channel_replacement(cur.as_str(), i, e, chans);
                let next = replace_all(cur.as_str(), token.as_str(), rep.as_str());
                cur = next;
                fuel = fuel - 1;
            },
        }
    }
    cur
}

fn expand_role_tokens(text: String, roles: Option<&Vec<NamedRef>>) -> (out: String)
    ensures
        out@ == fix_role(text@, named_view(roles), count_char(text@, '<')),
{
    let mut cur = text;
    let mut fuel: usize = count_char_in(cur.as_str(), '<');
    let ghost target = fix_role(cur@, named_view(roles), fuel as nat);
    loop
        invariant
            fix_role(cur@, named_view(roles), fuel as nat) == target,
        ensures
            cur@ == target,
        decreases fuel,
    {
        if fuel == 0 {
            break ;
        }
        match find_token(&TokenKind::Role, cur.as_str()) {
            None => {
                break ;
            },
            Some((i, e)) => {
                let token = cur.as_str().substring_char(i, e).to_owned();
                let rep = role_replacement(cur.as_str(), i, e, roles);
                let next = replace_all(cur.as_str(), token.as_str(), rep.as_str());
                cur = next;
                fuel = fuel - 1;
            },
        }
    }
    cur
}

fn expand_emoji_tokens(text: String) -> (out: String)
    ensures
        out@ == fix_emoji(text@, count_char(text@, '<')),
{
    let mut cur = text;
    let mut fuel: usize = count_char_in(cur.as_str(), '<');
    let ghost target = fix_emoji(cur@, fuel as nat);
    loop
        invariant
            fix_emoji(cur@, fuel as nat) == target,
        ensures
            cur@ == target,
        decreases fuel,
    {
        if fuel == 0 {
            break ;
        }
        match find_token(&TokenKind::Emoji, cur.as_str()) {
            None => {
                break ;
            },
            Some((i, e)) => {
                let token = cur.as_str().substring_char(i, e).to_owned();
                let rep = emoji_replacement(cur.as_str(), i, e);
                let next = replace_all(cur.as_str(), token.as_str(), rep.as_str());
                cur = next;
                fuel = fuel - 1;
            },
        }
    }
    cur
}

/// The channel list the expansion sees: the guild's when there is one.
pub open spec fn guild_channels(guild: Option<&GuildRefs>) -> Option<Seq<NamedRef>> {
    match guild {
        None => None,
        Some(g) => Some(g.channels@),
    }
}

/// The role list the expansion sees: the guild's when there is one.
pub open spec fn guild_roles(guild: Option<&GuildRefs>) -> Option<Seq<NamedRef>> {
    match guild {
        None => None,
        Some(g) => Some(g.roles@),
    }
}

/// Rewrites the mention tokens of `text` into their display forms, one
/// category at a time: users, then channels and roles (resolved through the
/// guild context when one is given), then custom emoji, each taken to its
/// fixed point. Text without any token comes back unchanged; no emoji token
/// is ever left in the result; and with benign lookup tables (no angle
/// bracket in any name, role names never shaped like a user id) no token of
/// any shape is left at all.
pub fn expand_mentions(text: &str, mentions: &Vec<MentionUser>, guild: Option<&GuildRefs>) -> (out:
    String)
    ensures
        out@ == expand_spec(text@, mentions@, guild_channels(guild), guild_roles(guild)),
        mention_free(text@) ==> out@ == text@,
        !has_token(TokenKind::Emoji, out@),
        tables_benign(mentions@, guild_channels(guild), guild_roles(guild)) ==> mention_free(
            out@,
        ),
{
    let chans: Option<&Vec<NamedRef>> = match guild {
        Some(g) => Some(&g.channels),
        None => None,
    };
    let roles: Option<&Vec<NamedRef>> = match guild {
        Some(g) => Some(&g.roles),
        None => None,
    };
    let t1 = expand_user_tokens(text.to_owned(), mentions);
    let t2 = expand_channel_tokens(t1, chans);
    let t3 = expand_role_tokens(t2, roles);
    let out = expand_emoji_tokens(t3);
    proof {
        if mention_free(text@) {
            lemma_expand_already_expanded(
                text@,
                mentions@,
                guild_channels(guild),
                guild_roles(guild),
            );
        }
        lemma_expand_leaves_no_emoji_token(
            text@,
            mentions@,
            guild_channels(guild),
            guild_roles(guild),
        );
        if tables_benign(mentions@, guild_channels(guild), guild_roles(guild)) {
            lemma_expand_mention_free(
                text@,
                mentions@,
                guild_channels(guild),
                guild_roles(guild),
            );
        }
    }
    out
}

/// `pat` occurs somewhere in `s`.
pub open spec fn contains_pat(s: Seq<char>, pat: Seq<char>) -> bool {
    exists|i: int| matches_at(s, i, pat)
}

/// Replacing a pattern that holds a character the replacement lacks lowers
/// that character's count, and by at least one whenever the pattern occurs.
pub proof fn lemma_replace_all_count(s: Seq<char>, pat: Seq<char>, r: Seq<char>, c: char)
    requires
        pat.len() >= 1,
        count_char(pat, c) >= 1,
        count_char(r, c) == 0,
    ensures
        count_char(replace_all_spec(s, pat, r), c) <= count_char(s, c),
        contains_pat(s, pat) ==> count_char(replace_all_spec(s, pat, r), c) <= count_char(s, c)
            - 1,
    decreases s.len(),
{
    let m = pat.len() as int;
    if s.len() < pat.len() {
        if contains_pat(s, pat) {
            let i = choose|i: int| matches_at(s, i, pat);
            assert(false);
        }
    } else if s.subrange(0, m) == pat {
        let tail = s.subrange(m, s.len() as int);
        lemma_replace_all_count(tail, pat, r, c);
        crate::text::lemma_count_char_concat(r, replace_all_spec(tail, pat, r), c);
        assert(s =~= s.subrange(0, m) + tail);
        crate::text::lemma_count_char_concat(pat, tail, c);
    } else {
        let tail = s.subrange(1, s.len() as int);
        lemma_replace_all_count(tail, pat, r, c);
        crate::text::lemma_count_char_concat(seq![s[0]], replace_all_spec(tail, pat, r), c);
        assert(s =~= seq![s[0]] + tail);
        crate::text::lemma_count_char_concat(seq![s[0]], tail, c);
        if contains_pat(s, pat) {
            let i = choose|i: int| matches_at(s, i, pat);
            assert(i >= 1);
            assert(tail.subrange(i - 1, i - 1 + m) =~= s.subrange(i, i + m));
            assert(matches_at(tail, i - 1, pat));
        }
    }
}

/// What an emoji token is replaced with is the two colons and the name
/// characters between them, so it never holds a character outside that
/// alphabet — in particular no angle bracket.
pub proof fn lemma_emoji_repl_char_free(s: Seq<char>, i: int, e: int, c: char)
    requires
        token_end(TokenKind::Emoji, s, i) == Some(e),
        c != ':',
        !is_emoji_name_char(c),
    ensures
        count_char(emoji_repl(s, i, e), c) == 0,
        emoji_repl(s, i, e).len() >= 1,
        emoji_repl(s, i, e)[0] == ':',
{
    let j = if i + 1 < s.len() && s[i + 1] == 'a' {
        i + 2
    } else {
        i + 1
    };
    let k = emoji_name_run_end(s, j + 1);
    crate::text::lemma_emoji_name_run_all(s, j + 1);
    lemma_token_end_bounds(TokenKind::Emoji, s, i);
    crate::text::lemma_count_char_zero(s.subrange(j, k + 1), c);
}

/// The emoji pass really reaches its fixed point: a `<` count's worth of
/// fuel is enough, because every emoji replacement removes a token's `<` and
/// introduces none. No emoji token survives it.
pub proof fn lemma_fix_emoji_token_free(t: Seq<char>, fuel: nat)
    requires
        count_char(t, '<') <= fuel,
    ensures
        !has_token(TokenKind::Emoji, fix_emoji(t, fuel)),
    decreases fuel,
{
    if fuel == 0 {
        if has_token(TokenKind::Emoji, t) {
            let ie = find_token_from(TokenKind::Emoji, t, 0)->0;
            lemma_find_token_at(TokenKind::Emoji, t, 0);
            crate::text::lemma_count_char_pos(t, '<', ie.0);
            assert(false);
        }
    } else {
        match find_token_from(TokenKind::Emoji, t, 0) {
            None => {},
            Some(ie) => {
                lemma_find_token_at(TokenKind::Emoji, t, 0);
                lemma_token_end_bounds(TokenKind::Emoji, t, ie.0);
                let pat = t.subrange(ie.0, ie.1);
                let rep = emoji_repl(t, ie.0, ie.1);
                crate::text::lemma_count_char_pos(pat, '<', 0);
                lemma_emoji_repl_char_free(t, ie.0, ie.1, '<');
                crate::text::lemma_count_char_pos(t, '<', ie.0);
                lemma_replace_all_count(t, pat, rep, '<');
                assert(matches_at(t, ie.0, pat));
                assert(contains_pat(t, pat));
                lemma_fix_emoji_token_free(replace_all_spec(t, pat, rep), (fuel - 1) as nat);
            },
        }
    }
}

/// Whether every name of a mentioned-user list is free of a character.
pub open spec fn users_char_free(users: Seq<MentionUser>, c: char) -> bool {
    forall|k: int| 0 <= k < users.len() ==> count_char((#[trigger] users[k].name)@, c) == 0
}

/// What a user token is replaced with never holds an angle bracket, as long
/// as no mentioned user's name does: the replacement is `@` and a name or
/// the token's own digits.
pub proof fn lemma_user_repl_char_free(s: Seq<char>, i: int, e: int, users: Seq<MentionUser>, c: char)
    requires
        token_end(TokenKind::User, s, i) == Some(e),
        c != '@',
        !is_mention_digit(c),
        users_char_free(users, c),
    ensures
        count_char(user_repl(s, i, e, users), c) == 0,
{
    let j = user_digits_start(s, i);
    let digits = s.subrange(j, e - 1);
    crate::text::lemma_mention_digit_run_all(s, j);
    lemma_token_end_bounds(TokenKind::User, s, i);
    match first_user_name_from(users, mention_id_value(digits), 0) {
        Some(name) => {
            lemma_first_user_name_listed(users, mention_id_value(digits), 0);
            crate::text::lemma_count_char_concat(seq!['@'], name, c);
            crate::text::lemma_count_char_zero(seq!['@'], c);
        },
        None => {
            crate::text::lemma_count_char_concat(seq!['@'], digits, c);
            crate::text::lemma_count_char_zero(seq!['@'], c);
            crate::text::lemma_count_char_zero(digits, c);
        },
    }
}

/// A resolved name comes from the list it was looked up in.
pub proof fn lemma_first_user_name_listed(users: Seq<MentionUser>, id: u64, k: int)
    ensures
        first_user_name_from(users, id, k) matches Some(name) ==> exists|t: int|
            0 <= t < users.len() && (#[trigger] users[t].name)@ == name,
    decreases users.len() - k,
{
    if 0 <= k < users.len() {
        if users[k].id == id {
            assert(users[k].name@ == first_user_name_from(users, id, k)->0);
        } else {
            lemma_first_user_name_listed(users, id, k + 1);
        }
    }
}

/// A resolved channel or role name comes from the list it was looked up in.
pub proof fn lemma_first_ref_name_listed(refs: Seq<NamedRef>, id: u64, k: int)
    ensures
        first_ref_name_from(refs, id, k) matches Some(name) ==> exists|t: int|
            0 <= t < refs.len() && (#[trigger] refs[t].name)@ == name,
    decreases refs.len() - k,
{
    if 0 <= k < refs.len() {
        if refs[k].id == id {
            assert(refs[k].name@ == first_ref_name_from(refs, id, k)->0);
        } else {
            lemma_first_ref_name_listed(refs, id, k + 1);
        }
    }
}

/// Whether every name of an optional lookup table is free of a character.
pub open spec fn names_char_free(refs: Option<Seq<NamedRef>>, c: char) -> bool {
    refs matches Some(list) ==> forall|k: int|
        0 <= k < list.len() ==> count_char((#[trigger] list[k].name)@, c) == 0
}

/// What a channel token is replaced with never holds an angle bracket, as
/// long as no channel name of the guild does; and it always starts with `#`.
pub proof fn lemma_channel_repl_char_free(
    s: Seq<char>,
    i: int,
    e: int,
    chans: Option<Seq<NamedRef>>,
    c: char,
)
    requires
        token_end(TokenKind::Channel, s, i) == Some(e),
        c == '<' || c == '>',
        names_char_free(chans, c),
    ensures
        count_char(channel_repl(s, i, e, chans), c) == 0,
        channel_repl(s, i, e, chans).len() >= 1,
        channel_repl(s, i, e, chans)[0] == '#',
{
    proof_deleted_literal_facts(c);
    match chans {
        None => {},
        Some(list) => {
            let digits = s.subrange(i + 2, e - 1);
            match first_ref_name_from(list, mention_id_value(digits), 0) {
                Some(name) => {
                    lemma_first_ref_name_listed(list, mention_id_value(digits), 0);
                    crate::text::lemma_count_char_concat(seq!['#'], name, c);
                    crate::text::lemma_count_char_zero(seq!['#'], c);
                },
                None => {},
            }
        },
    }
}

/// What a role token is replaced with never holds an angle bracket, as long
/// as no role name of the guild does; and it always starts with `@`.
pub proof fn lemma_role_repl_char_free(
    s: Seq<char>,
    i: int,
    e: int,
    roles: Option<Seq<NamedRef>>,
    c: char,
)
    requires
        token_end(TokenKind::Role, s, i) == Some(e),
        c == '<' || c == '>',
        names_char_free(roles, c),
    ensures
        count_char(role_repl(s, i, e, roles), c) == 0,
        role_repl(s, i, e, roles).len() >= 1,
        role_repl(s, i, e, roles)[0] == '@',
{
    proof_deleted_literal_facts(c);
    match roles {
        None => {},
        Some(list) => {
            let digits = s.subrange(i + 3, e - 1);
            match first_ref_name_from(list, mention_id_value(digits), 0) {
                Some(name) => {
                    lemma_first_ref_name_listed(list, mention_id_value(digits), 0);
                    crate::text::lemma_count_char_concat(seq!['@'], name, c);
                    crate::text::lemma_count_char_zero(seq!['@'], c);
                },
                None => {},
            }
        },
    }
}

/// The two fallback literals hold no angle bracket, and each starts with
/// its marker.
proof fn proof_deleted_literal_facts(c: char)
    requires
        c == '<' || c == '>',
    ensures
        count_char("#deleted-channel"@, c) == 0,
        count_char("@deleted-role"@, c) == 0,
        "#deleted-channel"@.len() == 16 && "#deleted-channel"@[0] == '#',
        "@deleted-role"@.len() == 13 && "@deleted-role"@[0] == '@',
{
    reveal_strlit("#deleted-channel");
    reveal_strlit("@deleted-role");
    crate::text::lemma_count_char_zero("#deleted-channel"@, c);
    crate::text::lemma_count_char_zero("@deleted-role"@, c);
}

/// The user pass reaches its fixed point whenever no mentioned user's name
/// holds a `<`: a `<` count's worth of fuel is enough, because each round
/// removes a token's `<` and introduces none. No user token survives it.
pub proof fn lemma_fix_user_token_free(t: Seq<char>, users: Seq<MentionUser>, fuel: nat)
    requires
        count_char(t, '<') <= fuel,
        users_char_free(users, '<'),
    ensures
        !has_token(TokenKind::User, fix_user(t, users, fuel)),
    decreases fuel,
{
    if fuel == 0 {
        if has_token(TokenKind::User, t) {
            let ie = find_token_from(TokenKind::User, t, 0)->0;
            lemma_find_token_at(TokenKind::User, t, 0);
            crate::text::lemma_count_char_pos(t, '<', ie.0);
            assert(false);
        }
    } else {
        match find_token_from(TokenKind::User, t, 0) {
            None => {},
            Some(ie) => {
                lemma_find_token_at(TokenKind::User, t, 0);
                lemma_token_end_bounds(TokenKind::User, t, ie.0);
                let pat = t.subrange(ie.0, ie.1);
                let rep = user_repl(t, ie.0, ie.1, users);
                crate::text::lemma_count_char_pos(pat, '<', 0);
                lemma_user_repl_char_free(t, ie.0, ie.1, users, '<');
                crate::text::lemma_count_char_pos(t, '<', ie.0);
                lemma_replace_all_count(t, pat, rep, '<');
                assert(matches_at(t, ie.0, pat));
                assert(contains_pat(t, pat));
                lemma_fix_user_token_free(replace_all_spec(t, pat, rep), users, (fuel - 1) as nat);
            },
        }
    }
}

/// The channel pass reaches its fixed point whenever no channel name of the
/// guild holds a `<`. No channel token survives it.
pub proof fn lemma_fix_channel_token_free(t: Seq<char>, chans: Option<Seq<NamedRef>>, fuel: nat)
    requires
        count_char(t, '<') <= fuel,
        names_char_free(chans, '<'),
    ensures
        !has_token(TokenKind::Channel, fix_channel(t, chans, fuel)),
    decreases fuel,
{
    if fuel == 0 {
        if has_token(TokenKind::Channel, t) {
            let ie = find_token_from(TokenKind::Channel, t, 0)->0;
            lemma_find_token_at(TokenKind::Channel, t, 0);
            crate::text::lemma_count_char_pos(t, '<', ie.0);
            assert(false);
        }
    } else {
        match find_token_from(TokenKind::Channel, t, 0) {
            None => {},
            Some(ie) => {
                lemma_find_token_at(TokenKind::Channel, t, 0);
                lemma_token_end_bounds(TokenKind::Channel, t, ie.0);
                let pat = t.subrange(ie.0, ie.1);
                let rep = channel_repl(t, ie.0, ie.1, chans);
                crate::text::lemma_count_char_pos(pat, '<', 0);
                lemma_channel_repl_char_free(t, ie.0, ie.1, chans, '<');
                crate::text::lemma_count_char_pos(t, '<', ie.0);
                lemma_replace_all_count(t, pat, rep, '<');
                assert(matches_at(t, ie.0, pat));
                assert(contains_pat(t, pat));
                lemma_fix_channel_token_free(
                    replace_all_spec(t, pat, rep),
                    chans,
                    (fuel - 1) as nat,
                );
            },
        }
    }
}

/// The role pass reaches its fixed point whenever no role name of the guild
/// holds a `<`. No role token survives it.
pub proof fn lemma_fix_role_token_free(t: Seq<char>, roles: Option<Seq<NamedRef>>, fuel: nat)
    requires
        count_char(t, '<') <= fuel,
        names_char_free(roles, '<'),
    ensures
        !has_token(TokenKind::Role, fix_role(t, roles, fuel)),
    decreases fuel,
{
    if fuel == 0 {
        if has_token(TokenKind::Role, t) {
            let ie = find_token_from(TokenKind::Role, t, 0)->0;
            lemma_find_token_at(TokenKind::Role, t, 0);
            crate::text::lemma_count_char_pos(t, '<', ie.0);
            assert(false);
        }
    } else {
        match find_token_from(TokenKind::Role, t, 0) {
            None => {},
            Some(ie) => {
                lemma_find_token_at(TokenKind::Role, t, 0);
                lemma_token_end_bounds(TokenKind::Role, t, ie.0);
                let pat = t.subrange(ie.0, ie.1);
                let rep = role_repl(t, ie.0, ie.1, roles);
                crate::text::lemma_count_char_pos(pat, '<', 0);
                lemma_role_repl_char_free(t, ie.0, ie.1, roles, '<');
                crate::text::lemma_count_char_pos(t, '<', ie.0);
                lemma_replace_all_count(t, pat, rep, '<');
                assert(matches_at(t, ie.0, pat));
                assert(contains_pat(t, pat));
                lemma_fix_role_token_free(replace_all_spec(t, pat, rep), roles, (fuel - 1) as nat);
            },
        }
    }
}

/// The channel pass never creates a token of a shape whose interior cannot
/// hold `#`: every channel replacement starts with `#` and, channel names
/// permitting, holds no angle bracket.
pub proof fn lemma_fix_channel_preserves(
    kind: TokenKind,
    t: Seq<char>,
    chans: Option<Seq<NamedRef>>,
    fuel: nat,
)
    requires
        token_free(kind, t),
        names_char_free(chans, '<'),
        names_char_free(chans, '>'),
        !interior_char(kind, '#'),
    ensures
        token_free(kind, fix_channel(t, chans, fuel)),
    decreases fuel,
{
    if fuel > 0 {
        match find_token_from(TokenKind::Channel, t, 0) {
            None => {},
            Some(ie) => {
                lemma_find_token_at(TokenKind::Channel, t, 0);
                lemma_token_end_bounds(TokenKind::Channel, t, ie.0);
                let pat = t.subrange(ie.0, ie.1);
                let rep = channel_repl(t, ie.0, ie.1, chans);
                lemma_channel_repl_char_free(t, ie.0, ie.1, chans, '<');
                lemma_channel_repl_char_free(t, ie.0, ie.1, chans, '>');
                assert(!interior_char(kind, rep[0]));
                assert(Seq::<char>::empty() + t =~= t);
                lemma_replace_section_keeps_free(kind, Seq::<char>::empty(), t, pat, rep);
                let next = replace_all_spec(t, pat, rep);
                assert(Seq::<char>::empty() + next =~= next);
                lemma_fix_channel_preserves(kind, next, chans, (fuel - 1) as nat);
            },
        }
    }
}

/// Every role name holds a character a user token's interior cannot: the
/// condition under which role replacements never assemble into user tokens.
pub open spec fn role_names_break_user_tokens(roles: Option<Seq<NamedRef>>) -> bool {
    roles matches Some(list) ==> forall|t: int|
        0 <= t < list.len() ==> exists|k: int|
            0 <= k < (#[trigger] list[t].name)@.len() && !interior_char(
                TokenKind::User,
                list[t].name@[k],
            )
}

/// The role pass never creates a user token: the fallback literal holds a
/// letter no user token's interior can hold, and every resolved role name is
/// required to hold such a character too.
pub proof fn lemma_fix_role_preserves_user(t: Seq<char>, roles: Option<Seq<NamedRef>>, fuel: nat)
    requires
        token_free(TokenKind::User, t),
        names_char_free(roles, '<'),
        names_char_free(roles, '>'),
        role_names_break_user_tokens(roles),
    ensures
        token_free(TokenKind::User, fix_role(t, roles, fuel)),
    decreases fuel,
{
    if fuel > 0 {
        match find_token_from(TokenKind::Role, t, 0) {
            None => {},
            Some(ie) => {
                lemma_find_token_at(TokenKind::Role, t, 0);
                lemma_token_end_bounds(TokenKind::Role, t, ie.0);
                let pat = t.subrange(ie.0, ie.1);
                let rep = role_repl(t, ie.0, ie.1, roles);
                lemma_role_repl_char_free(t, ie.0, ie.1, roles, '<');
                lemma_role_repl_char_free(t, ie.0, ie.1, roles, '>');
                assert(exists|k: int|
                    0 <= k < rep.len() && !interior_char(TokenKind::User, #[trigger] rep[k])) by {
                    reveal_strlit("@deleted-role");
                    let digits = t.subrange(ie.0 + 3, ie.1 - 1);
                    match roles {
                        None => {
                            assert(rep[1] == 'd');
                            assert(!interior_char(TokenKind::User, rep[1]));
                        },
                        Some(list) => {
                            match first_ref_name_from(list, mention_id_value(digits), 0) {
                                None => {
                                    assert(rep[1] == 'd');
                                    assert(!interior_char(TokenKind::User, rep[1]));
                                },
                                Some(name) => {
                                    lemma_first_ref_name_listed(
                                        list,
                                        mention_id_value(digits),
                                        0,
                                    );
                                    let ti = choose|ti: int|
                                        0 <= ti < list.len() && (#[trigger] list[ti].name)@
                                            == name;
                                    let k = choose|k: int|
                                        0 <= k < list[ti].name@.len() && !interior_char(
                                            TokenKind::User,
                                            list[ti].name@[k],
                                        );
                                    assert(rep[1 + k] == name[k]);
                                    assert(!interior_char(TokenKind::User, rep[1 + k]));
                                },
                            }
                        },
                    }
                }
                assert(Seq::<char>::empty() + t =~= t);
                lemma_replace_section_keeps_free(TokenKind::User, Seq::<char>::empty(), t, pat, rep);
                let next = replace_all_spec(t, pat, rep);
                assert(Seq::<char>::empty() + next =~= next);
                lemma_fix_role_preserves_user(next, roles, (fuel - 1) as nat);
            },
        }
    }
}

/// The role pass never creates a channel token: every role replacement
/// starts with `@`, which a channel token's interior cannot hold.
pub proof fn lemma_fix_role_preserves_channel(
    t: Seq<char>,
    roles: Option<Seq<NamedRef>>,
    fuel: nat,
)
    requires
        token_free(TokenKind::Channel, t),
        names_char_free(roles, '<'),
        names_char_free(roles, '>'),
    ensures
        token_free(TokenKind::Channel, fix_role(t, roles, fuel)),
    decreases fuel,
{
    if fuel > 0 {
        match find_token_from(TokenKind::Role, t, 0) {
            None => {},
            Some(ie) => {
                lemma_find_token_at(TokenKind::Role, t, 0);
                lemma_token_end_bounds(TokenKind::Role, t, ie.0);
                let pat = t.subrange(ie.0, ie.1);
                let rep = role_repl(t, ie.0, ie.1, roles);
                lemma_role_repl_char_free(t, ie.0, ie.1, roles, '<');
                lemma_role_repl_char_free(t, ie.0, ie.1, roles, '>');
                assert(!interior_char(TokenKind::Channel, rep[0]));
                assert(Seq::<char>::empty() + t =~= t);
                lemma_replace_section_keeps_free(
                    TokenKind::Channel,
                    Seq::<char>::empty(),
                    t,
                    pat,
                    rep,
                );
                let next = replace_all_spec(t, pat, rep);
                assert(Seq::<char>::empty() + next =~= next);
                lemma_fix_role_preserves_channel(next, roles, (fuel - 1) as nat);
            },
        }
    }
}

/// The emoji pass never creates a token of a shape whose interior cannot
/// hold `:`: every emoji replacement starts with `:` and holds no angle
/// bracket at all.
pub proof fn lemma_fix_emoji_preserves(kind: TokenKind, t: Seq<char>, fuel: nat)
    requires
        token_free(kind, t),
        !interior_char(kind, ':'),
    ensures
        token_free(kind, fix_emoji(t, fuel)),
    decreases fuel,
{
    if fuel > 0 {
        match find_token_from(TokenKind::Emoji, t, 0) {
            None => {},
            Some(ie) => {
                lemma_find_token_at(TokenKind::Emoji, t, 0);
                lemma_token_end_bounds(TokenKind::Emoji, t, ie.0);
                let pat = t.subrange(ie.0, ie.1);
                let rep = emoji_repl(t, ie.0, ie.1);
                lemma_emoji_repl_char_free(t, ie.0, ie.1, '<');
                lemma_emoji_repl_char_free(t, ie.0, ie.1, '>');
                assert(!interior_char(kind, rep[0]));
                assert(Seq::<char>::empty() + t =~= t);
                lemma_replace_section_keeps_free(kind, Seq::<char>::empty(), t, pat, rep);
                let next = replace_all_spec(t, pat, rep);
                assert(Seq::<char>::empty() + next =~= next);
                lemma_fix_emoji_preserves(kind, next, (fuel - 1) as nat);
            },
        }
    }
}

/// Every name the expansion can splice in is benign: no angle bracket in
/// any user, channel or role name, and every role name holds a character a
/// user token's interior cannot (role replacements are the one `@`-shaped
/// splice made after the user pass).
pub open spec fn tables_benign(
    users: Seq<MentionUser>,
    chans: Option<Seq<NamedRef>>,
    roles: Option<Seq<NamedRef>>,
) -> bool {
    &&& users_char_free(users, '<')
    &&& names_char_free(chans, '<')
    &&& names_char_free(chans, '>')
    &&& names_char_free(roles, '<')
    &&& names_char_free(roles, '>')
    &&& role_names_break_user_tokens(roles)
}

/// With benign lookup tables the expansion's result holds no mention token
/// of any shape: each pass reaches its fixed point, and no later pass
/// reassembles an earlier shape.
pub proof fn lemma_expand_mention_free(
    t: Seq<char>,
    users: Seq<MentionUser>,
    chans: Option<Seq<NamedRef>>,
    roles: Option<Seq<NamedRef>>,
)
    requires
        tables_benign(users, chans, roles),
    ensures
        mention_free(expand_spec(t, users, chans, roles)),
{
    let t1 = fix_user(t, users, count_char(t, '<'));
    let t2 = fix_channel(t1, chans, count_char(t1, '<'));
    let t3 = fix_role(t2, roles, count_char(t2, '<'));
    let t4 = fix_emoji(t3, count_char(t3, '<'));
    lemma_fix_user_token_free(t, users, count_char(t, '<'));
    lemma_token_free_iff(TokenKind::User, t1);
    lemma_fix_channel_token_free(t1, chans, count_char(t1, '<'));
    lemma_fix_channel_preserves(TokenKind::User, t1, chans, count_char(t1, '<'));
    lemma_token_free_iff(TokenKind::User, t2);
    lemma_token_free_iff(TokenKind::Channel, t2);
    lemma_fix_role_token_free(t2, roles, count_char(t2, '<'));
    lemma_fix_role_preserves_user(t2, roles, count_char(t2, '<'));
    lemma_fix_role_preserves_channel(t2, roles, count_char(t2, '<'));
    lemma_token_free_iff(TokenKind::User, t3);
    lemma_token_free_iff(TokenKind::Channel, t3);
    lemma_token_free_iff(TokenKind::Role, t3);
    lemma_fix_emoji_token_free(t3, count_char(t3, '<'));
    lemma_fix_emoji_preserves(TokenKind::User, t3, count_char(t3, '<'));
    lemma_fix_emoji_preserves(TokenKind::Channel, t3, count_char(t3, '<'));
    lemma_fix_emoji_preserves(TokenKind::Role, t3, count_char(t3, '<'));
    lemma_token_free_iff(TokenKind::User, t4);
    lemma_token_free_iff(TokenKind::Channel, t4);
    lemma_token_free_iff(TokenKind::Role, t4);
}

/// With benign lookup tables the expansion is idempotent outright: its
/// result is fully expanded, so running it again on that output returns it
/// unchanged.
pub proof fn lemma_expand_idempotent(
    t: Seq<char>,
    users: Seq<MentionUser>,
    chans: Option<Seq<NamedRef>>,
    roles: Option<Seq<NamedRef>>,
)
    requires
        tables_benign(users, chans, roles),
    ensures
        expand_spec(expand_spec(t, users, chans, roles), users, chans, roles) == expand_spec(
            t,
            users,
            chans,
            roles,
        ),
{
    lemma_expand_mention_free(t, users, chans, roles);
    lemma_expand_already_expanded(expand_spec(t, users, chans, roles), users, chans, roles);
}

/// A found token really starts where the search says: its end is the token
/// end at its start position, and the token's first character is `<`.
pub proof fn lemma_find_token_at(kind: TokenKind, s: Seq<char>, i: int)
    ensures
        find_token_from(kind, s, i) matches Some(ie) ==> token_end(kind, s, ie.0) == Some(ie.1)
            && i <= ie.0 < s.len() && s[ie.0] == '<',
    decreases s.len() - i,
{
    if 0 <= i < s.len() {
        if token_end(kind, s, i) is Some {
        } else {
            lemma_find_token_at(kind, s, i + 1);
        }
    }
}

/// After expansion no emoji token is left, whatever the text and the lookup
/// tables: the emoji pass runs last and resolves to its fixed point.
pub proof fn lemma_expand_leaves_no_emoji_token(
    t: Seq<char>,
    users: Seq<MentionUser>,
    chans: Option<Seq<NamedRef>>,
    roles: Option<Seq<NamedRef>>,
)
    ensures
        !has_token(TokenKind::Emoji, expand_spec(t, users, chans, roles)),
{
    let t1 = fix_user(t, users, count_char(t, '<'));
    let t2 = fix_channel(t1, chans, count_char(t1, '<'));
    let t3 = fix_role(t2, roles, count_char(t2, '<'));
    lemma_fix_emoji_token_free(t3, count_char(t3, '<'));
}

/// No token of shape `kind` starts anywhere in `s`.
pub open spec fn token_free(kind: TokenKind, s: Seq<char>) -> bool {
    forall|i: int| token_end(kind, s, i) is None
}

/// A token anywhere ahead of the search position makes the search succeed.
pub proof fn lemma_token_somewhere_found(kind: TokenKind, s: Seq<char>, i0: int, i: int)
    requires
        0 <= i0 <= i,
        token_end(kind, s, i) is Some,
    ensures
        find_token_from(kind, s, i0) is Some,
    decreases i - i0,
{
    lemma_token_end_bounds(kind, s, i);
    if token_end(kind, s, i0) is None {
        lemma_token_somewhere_found(kind, s, i0 + 1, i);
    }
}

/// `token_free` and the search agree: the search fails exactly when no
/// token starts anywhere.
pub proof fn lemma_token_free_iff(kind: TokenKind, s: Seq<char>)
    ensures
        token_free(kind, s) <==> !has_token(kind, s),
{
    if !token_free(kind, s) {
        let i = choose|i: int| token_end(kind, s, i) is Some;
        assert(0 <= i);
        lemma_token_somewhere_found(kind, s, 0, i);
    }
    if has_token(kind, s) {
        lemma_find_token_at(kind, s, 0);
        let ie = find_token_from(kind, s, 0)->0;
        assert(token_end(kind, s, ie.0) is Some);
        assert(!token_free(kind, s));
    }
}

/// Being a token is a property of the characters in the token's own window:
/// the same window at another position of another string is a token there
/// too.
pub proof fn lemma_token_end_transfer(
    kind: TokenKind,
    s1: Seq<char>,
    i1: int,
    s2: Seq<char>,
    i2: int,
    e1: int,
)
    requires
        token_end(kind, s1, i1) == Some(e1),
        0 <= i2,
        i2 + (e1 - i1) <= s2.len(),
        forall|k: int| 0 <= k < e1 - i1 ==> s1[i1 + k] == #[trigger] s2[i2 + k],
    ensures
        token_end(kind, s2, i2) == Some(i2 + (e1 - i1)),
{
    lemma_token_end_bounds(kind, s1, i1);
    let e2 = i2 + (e1 - i1);
    match kind {
        TokenKind::User => {
            let j1 = if i1 + 2 < s1.len() && s1[i1 + 2] == '!' {
                i1 + 3
            } else {
                i1 + 2
            };
            crate::text::lemma_mention_digit_run_end_bounds(s1, j1);
            crate::text::lemma_mention_digit_run_all(s1, j1);
            let j2 = i2 + (j1 - i1);
            assert(s1[i1 + 0] == s2[i2 + 0]);
            assert(s1[i1 + 1] == s2[i2 + 1]);
            assert(s1[i1 + 2] == s2[i2 + 2]);
            assert forall|k: int| j2 <= k < e2 - 1 implies is_mention_digit(s2[k]) by {
                assert(s1[i1 + (k - i2)] == s2[i2 + (k - i2)]);
            }
            assert(s1[i1 + (e1 - 1 - i1)] == s2[i2 + (e1 - 1 - i1)]);
            crate::text::lemma_mention_digit_run_end_from_props(s2, j2, e2 - 1);
        },
        TokenKind::Channel => {
            crate::text::lemma_mention_digit_run_end_bounds(s1, i1 + 2);
            crate::text::lemma_mention_digit_run_all(s1, i1 + 2);
            assert(s1[i1 + 0] == s2[i2 + 0]);
            assert(s1[i1 + 1] == s2[i2 + 1]);
            assert forall|k: int| i2 + 2 <= k < e2 - 1 implies is_mention_digit(s2[k]) by {
                assert(s1[i1 + (k - i2)] == s2[i2 + (k - i2)]);
            }
            assert(s1[i1 + (e1 - 1 - i1)] == s2[i2 + (e1 - 1 - i1)]);
            crate::text::lemma_mention_digit_run_end_from_props(s2, i2 + 2, e2 - 1);
        },
        TokenKind::Role => {
            crate::text::lemma_mention_digit_run_end_bounds(s1, i1 + 3);
            crate::text::lemma_mention_digit_run_all(s1, i1 + 3);
            assert(s1[i1 + 0] == s2[i2 + 0]);
            assert(s1[i1 + 1] == s2[i2 + 1]);
            assert(s1[i1 + 2] == s2[i2 + 2]);
            assert forall|k: int| i2 + 3 <= k < e2 - 1 implies is_mention_digit(s2[k]) by {
                assert(s1[i1 + (k - i2)] == s2[i2 + (k - i2)]);
            }
            assert(s1[i1 + (e1 - 1 - i1)] == s2[i2 + (e1 - 1 - i1)]);
            crate::text::lemma_mention_digit_run_end_from_props(s2, i2 + 3, e2 - 1);
        },
        TokenKind::Emoji => {
            let j1 = if i1 + 1 < s1.len() && s1[i1 + 1] == 'a' {
                i1 + 2
            } else {
                i1 + 1
            };
            let k1 = emoji_name_run_end(s1, j1 + 1);
            crate::text::lemma_emoji_name_run_end_bounds(s1, j1 + 1);
            crate::text::lemma_emoji_name_run_all(s1, j1 + 1);
            crate::text::lemma_mention_digit_run_end_bounds(s1, k1 + 1);
            crate::text::lemma_mention_digit_run_all(s1, k1 + 1);
            let j2 = i2 + (j1 - i1);
            let k2 = i2 + (k1 - i1);
            assert(s1[i1 + 0] == s2[i2 + 0]);
            assert(s1[i1 + 1] == s2[i2 + 1]);
            assert(s1[i1 + (j1 - i1)] == s2[i2 + (j1 - i1)]);
            assert forall|k: int| j2 + 1 <= k < k2 implies is_emoji_name_char(s2[k]) by {
                assert(s1[i1 + (k - i2)] == s2[i2 + (k - i2)]);
            }
            assert(s1[i1 + (k1 - i1)] == s2[i2 + (k1 - i1)]);
            crate::text::lemma_emoji_name_run_end_from_props(s2, j2 + 1, k2);
            assert forall|k: int| k2 + 1 <= k < e2 - 1 implies is_mention_digit(s2[k]) by {
                assert(s1[i1 + (k - i2)] == s2[i2 + (k - i2)]);
            }
            assert(s1[i1 + (e1 - 1 - i1)] == s2[i2 + (e1 - 1 - i1)]);
            crate::text::lemma_mention_digit_run_end_from_props(s2, k2 + 1, e2 - 1);
        },
    }
}

/// The characters that can stand strictly inside a token of shape `kind`
/// (between its `<` and its `>`).
pub open spec fn interior_char(kind: TokenKind, c: char) -> bool {
    match kind {
        TokenKind::User => c == '@' || c == '!' || is_mention_digit(c),
        TokenKind::Channel => c == '#' || is_mention_digit(c),
        TokenKind::Role => c == '@' || c == '&' || is_mention_digit(c),
        TokenKind::Emoji => c == 'a' || c == ':' || is_emoji_name_char(c) || is_mention_digit(c),
    }
}

/// A token starts with `<`, ends with `>`, and holds only its shape's
/// interior characters in between.
pub proof fn lemma_token_interior(kind: TokenKind, s: Seq<char>, i: int, e: int)
    requires
        token_end(kind, s, i) == Some(e),
    ensures
        s[i] == '<',
        s[e - 1] == '>',
        forall|k: int| i < k < e - 1 ==> interior_char(kind, #[trigger] s[k]),
{
    lemma_token_end_bounds(kind, s, i);
    match kind {
        TokenKind::User => {
            let j = if i + 2 < s.len() && s[i + 2] == '!' {
                i + 3
            } else {
                i + 2
            };
            crate::text::lemma_mention_digit_run_all(s, j);
            assert forall|k: int| i < k < e - 1 implies interior_char(kind, #[trigger] s[k]) by {
                if k >= j {
                    assert(is_mention_digit(s[k]));
                }
            }
        },
        TokenKind::Channel => {
            crate::text::lemma_mention_digit_run_all(s, i + 2);
            assert forall|k: int| i < k < e - 1 implies interior_char(kind, #[trigger] s[k]) by {
                if k >= i + 2 {
                    assert(is_mention_digit(s[k]));
                }
            }
        },
        TokenKind::Role => {
            crate::text::lemma_mention_digit_run_all(s, i + 3);
            assert forall|k: int| i < k < e - 1 implies interior_char(kind, #[trigger] s[k]) by {
                if k >= i + 3 {
                    assert(is_mention_digit(s[k]));
                }
            }
        },
        TokenKind::Emoji => {
            let j = if i + 1 < s.len() && s[i + 1] == 'a' {
                i + 2
            } else {
                i + 1
            };
            let m = emoji_name_run_end(s, j + 1);
            crate::text::lemma_emoji_name_run_end_bounds(s, j + 1);
            crate::text::lemma_emoji_name_run_all(s, j + 1);
            crate::text::lemma_mention_digit_run_all(s, m + 1);
            assert forall|k: int| i < k < e - 1 implies interior_char(kind, #[trigger] s[k]) by {
                if j + 1 <= k < m {
                    assert(is_emoji_name_char(s[k]));
                } else if k >= m + 1 {
                    assert(is_mention_digit(s[k]));
                }
            }
        },
    }
}

/// Replacing any pattern with a replacement that holds no angle bracket and
/// at least one character no `kind`-token interior can hold never creates a
/// `kind` token: a new token's window would have to lie inside untouched
/// text, inside the replacement (impossible: no `<`), or swallow a whole
/// replacement between its brackets (impossible: the non-interior
/// character). `p` is untouched text standing before the replaced part.
pub proof fn lemma_replace_section_keeps_free(
    kind: TokenKind,
    p: Seq<char>,
    s: Seq<char>,
    pat: Seq<char>,
    r: Seq<char>,
)
    requires
        pat.len() >= 1,
        count_char(r, '<') == 0,
        count_char(r, '>') == 0,
        exists|k: int| 0 <= k < r.len() && !interior_char(kind, #[trigger] r[k]),
        token_free(kind, p + s),
    ensures
        token_free(kind, p + replace_all_spec(s, pat, r)),
    decreases s.len(),
{
    let m = pat.len() as int;
    let pl = p.len() as int;
    let rl = r.len() as int;
    if s.len() < pat.len() {
    } else if s.subrange(0, m) == pat {
        let tail = s.subrange(m, s.len() as int);
        let t = replace_all_spec(tail, pat, r);
        assert forall|i: int| token_end(kind, tail, i) is None by {
            if token_end(kind, tail, i) is Some {
                let e = token_end(kind, tail, i)->0;
                lemma_token_end_bounds(kind, tail, i);
                assert forall|k: int| 0 <= k < e - i implies tail[i + k] == #[trigger] (p + s)[(pl
                    + m + i) + k] by {
                    assert(tail[i + k] == s[m + i + k]);
                }
                lemma_token_end_transfer(kind, tail, i, p + s, pl + m + i, e);
                assert(false);
            }
        }
        assert(Seq::<char>::empty() + tail =~= tail);
        lemma_replace_section_keeps_free(kind, Seq::<char>::empty(), tail, pat, r);
        assert(Seq::<char>::empty() + t =~= t);
        let out = p + replace_all_spec(s, pat, r);
        assert(replace_all_spec(s, pat, r) == r + t);
        assert forall|i: int| token_end(kind, out, i) is None by {
            if token_end(kind, out, i) is Some {
                let e = token_end(kind, out, i)->0;
                lemma_token_end_bounds(kind, out, i);
                lemma_token_interior(kind, out, i, e);
                if i >= pl + rl {
                    assert forall|k: int| 0 <= k < e - i implies out[i + k] == #[trigger] t[(i - pl
                        - rl) + k] by {
                        assert(out[i + k] == (r + t)[i + k - pl]);
                    }
                    lemma_token_end_transfer(kind, out, i, t, i - pl - rl, e);
                    assert(false);
                } else if i >= pl {
                    assert(out[i] == r[i - pl]);
                    crate::text::lemma_count_char_pos(r, '<', i - pl);
                    assert(false);
                } else {
                    if e <= pl {
                        assert forall|k: int| 0 <= k < e - i implies out[i + k] == #[trigger] (p
                            + s)[i + k] by {
                            assert(out[i + k] == p[i + k]);
                        }
                        lemma_token_end_transfer(kind, out, i, p + s, i, e);
                        assert(false);
                    } else {
                        if pl <= e - 1 < pl + rl {
                            assert(out[e - 1] == r[e - 1 - pl]);
                            crate::text::lemma_count_char_pos(r, '>', e - 1 - pl);
                            assert(false);
                        }
                        assert(e - 1 >= pl + rl);
                        let k0 = choose|k: int|
                            0 <= k < r.len() && !interior_char(kind, #[trigger] r[k]);
                        assert(i < pl + k0 < e - 1);
                        assert(interior_char(kind, out[pl + k0]));
                        assert(out[pl + k0] == r[k0]);
                        assert(false);
                    }
                }
            }
        }
    } else {
        let tail = s.subrange(1, s.len() as int);
        assert(p.push(s[0]) + tail =~= p + s);
        lemma_replace_section_keeps_free(kind, p.push(s[0]), tail, pat, r);
        assert(p + replace_all_spec(s, pat, r) =~= p.push(s[0]) + replace_all_spec(tail, pat, r));
    }
}

/// Expansion is a fixed point on already-expanded text: with no mention
/// token left to match, every category leaves the text exactly as it is, so
/// running the expansion again on its own output of such a text changes
/// nothing.
pub proof fn lemma_expand_already_expanded(
    t: Seq<char>,
    users: Seq<MentionUser>,
    chans: Option<Seq<NamedRef>>,
    roles: Option<Seq<NamedRef>>,
)
    requires
        mention_free(t),
    ensures
        expand_spec(t, users, chans, roles) == t,
{
    assert(fix_user(t, users, count_char(t, '<')) == t);
    assert(fix_channel(t, chans, count_char(t, '<')) == t);
    assert(fix_role(t, roles, count_char(t, '<')) == t);
    assert(fix_emoji(t, count_char(t, '<')) == t);
}

} // verus!
