//! Session and authorization state: the bot's own identifier, the shared
//! administrator password, and the set of senders that have authenticated.
//!
//! The identifier is learned once, at connection time. A sender becomes
//! authorized by an `auth` command with the matching password in a direct
//! channel, and stays authorized: there is no de-authorization. Only an
//! authorized sender's `quit` is let through.

use vstd::prelude::*;

use crate::text::str_eq;

verus! {

/// The process-wide session state.
pub struct BotSettings {
    pub id: Option<u64>,
    pub admin_password: Option<String>,
    pub admin_ids: Vec<u64>,
}

/// The reply to one `auth` attempt. Only the first two are spoken; a denial
/// and a missing password stay silent, so a guess learns nothing beyond the
/// fixed non-response.
pub enum AuthReply {
    AlreadyAuthorized,
    Granted,
    Denied,
    NoPassword,
}

/// Whether an `auth` attempt is accepted: the sender is not yet authorized,
/// a password is set, and the attempt matches it.
pub open spec fn auth_granted(
    admins: Seq<u64>,
    password: Option<Seq<char>>,
    user: u64,
    attempt: Seq<char>,
) -> bool {
    !admins.contains(user) && password is Some && password->0 == attempt
}

/// The authorized set after an `auth` attempt: the sender is added exactly
/// when the attempt is accepted, and the set never shrinks.
pub open spec fn admins_after_auth(
    admins: Seq<u64>,
    password: Option<Seq<char>>,
    user: u64,
    attempt: Seq<char>,
) -> Seq<u64> {
    if auth_granted(admins, password, user, attempt) {
        admins.push(user)
    } else {
        admins
    }
}

/// Whether a `quit` from this sender is let through.
pub open spec fn quit_accepted(admins: Seq<u64>, user: u64) -> bool {
    admins.contains(user)
}

/// The view of an optional password.
pub open spec fn password_view(p: Option<String>) -> Option<Seq<char>> {
    match p {
        None => None,
        Some(s) => Some(s@),
    }
}

/// A successful authorization admits the same sender's later `quit`; a
/// sender neither authorized before nor granted now stays shut out, so that
/// sender's `quit` stays a no-op.
pub proof fn lemma_auth_gates_quit(
    admins: Seq<u64>,
    password: Option<Seq<char>>,
    user: u64,
    attempt: Seq<char>,
)
    ensures
        auth_granted(admins, password, user, attempt) ==> quit_accepted(
            admins_after_auth(admins, password, user, attempt),
            user,
        ),
        !auth_granted(admins, password, user, attempt) && !admins.contains(user)
            ==> !quit_accepted(admins_after_auth(admins, password, user, attempt), user),
{
    if auth_granted(admins, password, user, attempt) {
        assert(admins.push(user)[admins.len() as int] == user);
    }
}

impl BotSettings {
    /// Fresh state: no identifier yet, the given password, nobody
    /// authorized.
    pub fn new(admin_password: Option<String>) -> (r: BotSettings)
        ensures
            r.id is None,
            r.admin_password == admin_password,
            r.admin_ids@ == Seq::<u64>::empty(),
    {
        BotSettings { id: None, admin_password, admin_ids: Vec::new() }
    }

    /// Records the bot's own identifier, handed over by the connection
    /// handshake. The transition is one-way: once set, the identifier is
    /// immutable, so this is called only while it is still unset.
    pub fn note_ready(&mut self, id: u64)
        requires
            old(self).id is None,
        ensures
            final (self).id == Some(id),
            final (self).admin_password == old(self).admin_password,
            final (self).admin_ids == old(self).admin_ids,
    {
        self.id = Some(id);
    }

    /// Whether this sender has authenticated.
    pub fn is_admin(&self, user: u64) -> (r: bool)
        ensures
            r == self.admin_ids@.contains(user),
    {
        let mut k: usize = 0;
        while k < self.admin_ids.len()
            invariant
                0 <= k <= self.admin_ids@.len(),
                forall|t: int| 0 <= t < k ==> self.admin_ids@[t] != user,
            decreases self.admin_ids@.len() - k,
        {
            if self.admin_ids[k] == user {
                return true;
            }
            k = k + 1;
        }
        assert(!self.admin_ids@.contains(user));
        false
    }

    /// One `auth` attempt. An already-authorized sender is told so; an
    /// unauthorized one is granted exactly a matching attempt when a
    /// password is set; a wrong attempt, or any attempt with no password
    /// set, changes nothing and stays silent.
    pub fn try_authorize(&mut self, user: u64, attempt: &str) -> (r: AuthReply)
        ensures
            final (self).id == old(self).id,
            final (self).admin_password == old(self).admin_password,
            final (self).admin_ids@ == admins_after_auth(
                old(self).admin_ids@,
                password_view(old(self).admin_password),
                user,
                attempt@,
            ),
            r is Granted <==> auth_granted(
                old(self).admin_ids@,
                password_view(old(self).admin_password),
                user,
                attempt@,
            ),
            r is AlreadyAuthorized <==> old(self).admin_ids@.contains(user),
            r is NoPassword <==> !old(self).admin_ids@.contains(user) && old(
                self,
            ).admin_password is None,
            r is Denied <==> !old(self).admin_ids@.contains(user) && (password_view(
                old(self).admin_password,
            ) matches Some(p) && p != attempt@),
    {
        if self.is_admin(user) {
            return AuthReply::AlreadyAuthorized;
        }
        let matches_password = match &self.admin_password {
            None => {
                return AuthReply::NoPassword;
            },
            Some(pw) => str_eq(pw.as_str(), attempt),
        };
        if matches_password {
            self.admin_ids.push(user);
            AuthReply::Granted
        } else {
            AuthReply::Denied
        }
    }
}

} // verus!
