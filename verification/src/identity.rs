//! The identity model: the parsed origin of a protocol line.
//!
//! An identity is either a network user (nickname, ident and vhost all
//! present) or the network server itself (all three absent).  Equality is
//! structural over all four fields; it is the trust boundary for
//! authorization, so a sender that matches the controller in some fields but
//! not all is never authorized.

use vstd::prelude::*;

verus! {

/// Ghost image of a [`User`]: each textual field as a sequence of characters.
pub struct UserView {
    pub nick: Option<Seq<char>>,
    pub ident: Option<Seq<char>>,
    pub vhost: Option<Seq<char>>,
    pub is_server: bool,
}

/// View of an optional piece of text.
pub open spec fn opt_view(o: Option<String>) -> Option<Seq<char>> {
    match o {
        Some(s) => Some(s@),
        None => None,
    }
}

/// The synthetic identity of the network server: no textual fields, only the
/// server flag.
pub open spec fn server_view() -> UserView {
    UserView { nick: None, ident: None, vhost: None, is_server: true }
}

/// The identity model's shape: the server identity carries no textual
/// fields, and a user identity carries all three.
pub open spec fn id_well_formed(u: UserView) -> bool {
    if u.is_server {
        u.nick is None && u.ident is None && u.vhost is None
    } else {
        u.nick is Some && u.ident is Some && u.vhost is Some
    }
}

/// Structural equality over all four fields.  This is the exact-identity
/// relation that authorization uses: nothing less than agreement on every
/// field counts.
pub open spec fn user_eq(a: UserView, b: UserView) -> bool {
    &&& a.nick == b.nick
    &&& a.ident == b.ident
    &&& a.vhost == b.vhost
    &&& a.is_server == b.is_server
}

/// Authorization is exact-identity, never nickname-only: two identities
/// authorize one another exactly when all four fields agree, so a sender that
/// differs from the controller in any single field is rejected.
pub proof fn lemma_authorization_exact(a: UserView, b: UserView)
    ensures
        user_eq(a, b) <==> {
            &&& a.nick == b.nick
            &&& a.ident == b.ident
            &&& a.vhost == b.vhost
            &&& a.is_server == b.is_server
        },
{
}

/// The originator of a protocol line: a network user or the server itself.
#[derive(Clone)]
pub struct User {
    nick: Option<String>,
    ident: Option<String>,
    vhost: Option<String>,
    is_server: bool,
}

impl View for User {
    type V = UserView;

    closed spec fn view(&self) -> UserView {
        UserView {
            nick: opt_view(self.nick),
            ident: opt_view(self.ident),
            vhost: opt_view(self.vhost),
            is_server: self.is_server,
        }
    }
}

impl User {
    /// Builds an identity from its four fields.
    pub fn new(
        nick: Option<String>,
        ident: Option<String>,
        vhost: Option<String>,
        is_server: bool,
    ) -> (r: User)
        ensures
            r@ == (UserView {
                nick: opt_view(nick),
                ident: opt_view(ident),
                vhost: opt_view(vhost),
                is_server,
            }),
    {
        User { nick, ident, vhost, is_server }
    }

    /// Whether this identity is the network server rather than a user.
    pub fn is_server(&self) -> (r: bool)
        ensures
            r == self@.is_server,
    {
        self.is_server
    }
}

impl PartialEq for User {
    fn eq(&self, other: &User) -> (r: bool)
        ensures
            r == user_eq(self@, other@),
    {
        let nick_eq: bool = match (&self.nick, &other.nick) {
            (Some(a), Some(b)) => *a == *b,
            (None, None) => true,
            _ => false,
        };
        let ident_eq: bool = match (&self.ident, &other.ident) {
            (Some(a), Some(b)) => *a == *b,
            (None, None) => true,
            _ => false,
        };
        let vhost_eq: bool = match (&self.vhost, &other.vhost) {
            (Some(a), Some(b)) => *a == *b,
            (None, None) => true,
            _ => false,
        };
        nick_eq && ident_eq && vhost_eq && self.is_server == other.is_server
    }
}

impl vstd::std_specs::cmp::PartialEqSpecImpl for User {
    open spec fn obeys_eq_spec() -> bool {
        true
    }

    open spec fn eq_spec(&self, other: &User) -> bool {
        user_eq(self@, other@)
    }
}

} // verus!
