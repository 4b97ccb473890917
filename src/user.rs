use vstd::prelude::*;

use crate::matcher::same_text;
use crate::split::chars_of;

verus! {

/// A stable user id, as the chat service gives it.
pub type UserId = String;

/// A channel is identified like a user.
pub type ChannelId = UserId;

/// What is known of a user: login name, display name and id.
pub ghost struct UserView {
    pub username: Seq<char>,
    pub display_name: Option<Seq<char>>,
    pub user_id: Option<Seq<char>>,
}

pub open spec fn opt_str_view<'a>(o: Option<&'a str>) -> Option<Seq<char>> {
    match o {
        Some(x) => Some(x@),
        None => None,
    }
}

pub open spec fn opt_string_view(o: Option<String>) -> Option<Seq<char>> {
    match o {
        Some(x) => Some(x@),
        None => None,
    }
}

pub fn clone_opt_string(o: &Option<String>) -> (r: Option<String>)
    ensures
        opt_string_view(r) == opt_string_view(*o),
{
    match o {
        Some(s) => Some(s.clone()),
        None => None,
    }
}

fn opt_to_owned(o: Option<&str>) -> (r: Option<String>)
    ensures
        opt_string_view(r) == opt_str_view(o),
{
    match o {
        Some(s) => Some(s.to_owned()),
        None => None,
    }
}

fn opt_same_text(a: Option<&str>, b: Option<&str>) -> (r: bool)
    ensures
        r == (opt_str_view(a) == opt_str_view(b)),
{
    match (a, b) {
        (Some(x), Some(y)) => same_text(x, y),
        (None, None) => true,
        _ => false,
    }
}

/// Two users are the same when both ids are known and equal, or, when either id is
/// unknown, when the login names are equal.
pub open spec fn same_user(a: UserView, b: UserView) -> bool {
    match (a.user_id, b.user_id) {
        (Some(x), Some(y)) => x == y,
        _ => a.username == b.username,
    }
}

/// A user as seen in one message.
#[derive(Debug, Clone)]
pub struct User<'a> {
    username: &'a str,
    display_name: Option<&'a str>,
    user_id: Option<UserId>,
}

impl<'a> View for User<'a> {
    type V = UserView;

    closed spec fn view(&self) -> UserView {
        UserView {
            username: self.username@,
            display_name: opt_str_view(self.display_name),
            user_id: opt_string_view(self.user_id),
        }
    }
}

impl<'a> User<'a> {
    pub fn new(username: &'a str, display_name: Option<&'a str>, user_id: Option<UserId>) -> (r:
        Self)
        ensures
            r@ == (UserView {
                username: username@,
                display_name: opt_str_view(display_name),
                user_id: opt_string_view(user_id),
            }),
    {
        User { username, display_name, user_id }
    }

    pub fn from_username(username: &'a str) -> (r: Self)
        ensures
            r@ == (UserView { username: username@, display_name: None, user_id: None }),
    {
        User { username, display_name: None, user_id: None }
    }

    pub fn from_owned(owned: &'a OwnedUser) -> (r: Self)
        ensures
            r@ == owned@,
    {
        User {
            username: owned.username(),
            display_name: owned.display_name(),
            user_id: owned.user_id(),
        }
    }

    pub fn username(&self) -> (r: &'a str)
        ensures
            r@ == self@.username,
    {
        self.username
    }

    pub fn display_name(&self) -> (r: Option<&'a str>)
        ensures
            opt_str_view(r) == self@.display_name,
    {
        self.display_name
    }

    pub fn user_id(&self) -> (r: Option<UserId>)
        ensures
            opt_string_view(r) == self@.user_id,
    {
        clone_opt_string(&self.user_id)
    }

    /// An equal copy.
    pub fn duplicate(&self) -> (r: Self)
        ensures
            r@ == self@,
    {
        User {
            username: self.username,
            display_name: self.display_name,
            user_id: clone_opt_string(&self.user_id),
        }
    }

    /// See `same_user`.
    pub fn is_same_user(&self, other: &User) -> (r: bool)
        ensures
            r == same_user(self@, other@),
    {
        match (&self.user_id, &other.user_id) {
            (Some(a), Some(b)) => same_text(a.as_str(), b.as_str()),
            _ => same_text(self.username, other.username),
        }
    }
}

/// A user as the registry keeps it.
#[derive(Debug, Clone)]
pub struct OwnedUser {
    username: String,
    display_name: Option<String>,
    user_id: Option<UserId>,
}

impl View for OwnedUser {
    type V = UserView;

    closed spec fn view(&self) -> UserView {
        UserView {
            username: self.username@,
            display_name: opt_string_view(self.display_name),
            user_id: opt_string_view(self.user_id),
        }
    }
}

impl OwnedUser {
    pub fn new(username: String, display_name: Option<String>, user_id: Option<UserId>) -> (r: Self)
        ensures
            r@ == (UserView {
                username: username@,
                display_name: opt_string_view(display_name),
                user_id: opt_string_view(user_id),
            }),
    {
        OwnedUser { username, display_name, user_id }
    }

    pub fn from_username(username: String) -> (r: Self)
        ensures
            r@ == (UserView { username: username@, display_name: None, user_id: None }),
    {
        OwnedUser { username, display_name: None, user_id: None }
    }

    pub fn from_user(user: &User<'_>) -> (r: Self)
        ensures
            r@ == user@,
    {
        OwnedUser {
            username: user.username().to_owned(),
            display_name: opt_to_owned(user.display_name()),
            user_id: user.user_id(),
        }
    }

    /// An equal copy.
    pub fn clone_user(&self) -> (r: Self)
        ensures
            r@ == self@,
    {
        OwnedUser {
            username: self.username.clone(),
            display_name: clone_opt_string(&self.display_name),
            user_id: clone_opt_string(&self.user_id),
        }
    }

    /// Sets the login name; returns the previous one when it changed.
    pub fn update_username(&mut self, username: &str) -> (r: Option<String>)
        ensures
            final(self)@ == (UserView { username: username@, ..old(self)@ }),
            old(self)@.username == username@ ==> r is None,
            old(self)@.username != username@ ==> (r matches Some(p) && p@ == old(self)@.username),
    {
        if !same_text(self.username.as_str(), username) {
            let previous = self.username.clone();
            self.username = username.to_owned();
            Some(previous)
        } else {
            None
        }
    }

    /// Sets the display name; returns the previous one when it changed.
    pub fn update_display_name(&mut self, display_name: Option<&str>) -> (r: Option<Option<String>>)
        ensures
            final(self)@ == (UserView { display_name: opt_str_view(display_name), ..old(self)@ }),
            old(self)@.display_name == opt_str_view(display_name) ==> r is None,
            old(self)@.display_name != opt_str_view(display_name) ==> (r matches Some(p)
                && opt_string_view(p) == old(self)@.display_name),
    {
        let current = match &self.display_name {
            Some(s) => Some(s.as_str()),
            None => None,
        };
        if !opt_same_text(current, display_name) {
            let previous = clone_opt_string(&self.display_name);
            self.display_name = opt_to_owned(display_name);
            Some(previous)
        } else {
            None
        }
    }

    /// Sets the id when none was known and one is given; returns it then.
    pub fn set_user_id(&mut self, user_id: Option<UserId>) -> (r: Option<UserId>)
        ensures
            old(self)@.user_id is None && user_id is Some ==> final(self)@ == (UserView {
                user_id: opt_string_view(user_id),
                ..old(self)@
            }) && opt_string_view(r) == opt_string_view(user_id),
            !(old(self)@.user_id is None && user_id is Some) ==> final(self)@ == old(self)@
                && r is None,
    {
        if self.user_id.is_none() && user_id.is_some() {
            self.user_id = user_id;
            clone_opt_string(&self.user_id)
        } else {
            None
        }
    }

    pub fn username(&self) -> (r: &str)
        ensures
            r@ == self@.username,
    {
        self.username.as_str()
    }

    pub fn display_name(&self) -> (r: Option<&str>)
        ensures
            opt_str_view(r) == self@.display_name,
    {
        match &self.display_name {
            Some(s) => Some(s.as_str()),
            None => None,
        }
    }

    pub fn user_id(&self) -> (r: Option<UserId>)
        ensures
            opt_string_view(r) == self@.user_id,
    {
        clone_opt_string(&self.user_id)
    }

    /// See `same_user`.
    pub fn is_same_user(&self, other: &OwnedUser) -> (r: bool)
        ensures
            r == same_user(self@, other@),
    {
        match (&self.user_id, &other.user_id) {
            (Some(a), Some(b)) => same_text(a.as_str(), b.as_str()),
            _ => same_text(self.username.as_str(), other.username.as_str()),
        }
    }
}

/// A user named in a command: a login name or a display name, without a leading `@`.
#[derive(Debug, Clone)]
pub struct UserArgument<'a>(&'a str);

pub open spec fn strip_at(s: Seq<char>) -> Seq<char> {
    if s.len() > 0 && s[0] == '@' {
        s.subrange(1, s.len() as int)
    } else {
        s
    }
}

impl<'a> UserArgument<'a> {
    pub closed spec fn text(&self) -> Seq<char> {
        self.0@
    }

    /// Drops one leading `@`.
    pub fn new(string: &'a str) -> (r: Self)
        ensures
            r.text() == strip_at(string@),
    {
        let c = chars_of(string);
        if c.len() > 0 && c[0] == '@' {
            UserArgument(string.substring_char(1, c.len()))
        } else {
            UserArgument(string)
        }
    }

    pub fn from_username(username: &'a str) -> (r: Self)
        ensures
            r.text() == username@,
    {
        UserArgument(username)
    }

    pub fn from_display_name(display_name: &'a str) -> (r: Self)
        ensures
            r.text() == display_name@,
    {
        UserArgument(display_name)
    }

    /// The user's display name when known, else the login name.
    pub fn from_user(user: &User<'a>) -> (r: Self)
        ensures
            r.text() == match user@.display_name {
                Some(d) => d,
                None => user@.username,
            },
    {
        match user.display_name() {
            Some(d) => Self::from_display_name(d),
            None => Self::from_username(user.username()),
        }
    }

    pub fn as_argument(&self) -> (r: &str)
        ensures
            r@ == self.text(),
    {
        self.0
    }

    /// The argument names the user by login name or display name.
    pub fn matches_user(&self, user: &User) -> (r: bool)
        ensures
            r == (self.text() == user@.username || Some(self.text()) == user@.display_name),
    {
        same_text(self.0, user.username()) || opt_same_text(Some(self.0), user.display_name())
    }

    /// How the argument is written in a message: `@name`, or the bare name when
    /// `alternate` is set.
    pub fn to_text(&self, alternate: bool) -> (r: String)
        ensures
            r@ == (if alternate {
                self.text()
            } else {
                seq!['@'] + self.text()
            }),
    {
        if alternate {
            self.0.to_owned()
        } else {
            let mut s = String::from_str("@");
            proof {
                reveal_strlit("@");
            }
            s.append(self.0);
            s
        }
    }
}

/// The sender of a message, with the moderation badges it carries.
#[derive(Debug, Clone)]
pub struct Sender<'a> {
    user: User<'a>,
    moderator: bool,
    broadcaster: bool,
}

impl<'a> Sender<'a> {
    pub closed spec fn user_view(&self) -> UserView {
        self.user@
    }

    pub closed spec fn moderator(&self) -> bool {
        self.moderator
    }

    pub closed spec fn broadcaster(&self) -> bool {
        self.broadcaster
    }

    pub fn new(user: User<'a>, moderator: bool, broadcaster: bool) -> (r: Self)
        ensures
            r.user_view() == user@,
            r.moderator() == moderator,
            r.broadcaster() == broadcaster,
    {
        Sender { user, moderator, broadcaster }
    }

    /// An equal copy.
    pub fn duplicate(&self) -> (r: Self)
        ensures
            r.user_view() == self.user_view(),
            r.moderator() == self.moderator(),
            r.broadcaster() == self.broadcaster(),
    {
        Sender { user: self.user.duplicate(), moderator: self.moderator, broadcaster: self.broadcaster }
    }

    /// A sender without badges.
    pub fn from_user(user: User<'a>) -> (r: Self)
        ensures
            r.user_view() == user@,
            !r.moderator(),
            !r.broadcaster(),
    {
        Sender::new(user, false, false)
    }

    pub fn is_moderator(&self) -> (r: bool)
        ensures
            r == self.moderator(),
    {
        self.moderator
    }

    pub fn is_broadcaster(&self) -> (r: bool)
        ensures
            r == self.broadcaster(),
    {
        self.broadcaster
    }

    pub fn user(&self) -> (r: &User<'a>)
        ensures
            r@ == self.user_view(),
    {
        &self.user
    }
}

/// The channel a message was sent in.
#[derive(Debug, Clone)]
pub struct Channel<'a>(User<'a>);

impl<'a> Channel<'a> {
    pub closed spec fn user_view(&self) -> UserView {
        self.0@
    }

    pub fn from_user(user: User<'a>) -> (r: Self)
        ensures
            r.user_view() == user@,
    {
        Channel(user)
    }

    /// An equal copy.
    pub fn duplicate(&self) -> (r: Self)
        ensures
            r.user_view() == self.user_view(),
    {
        Channel(self.0.duplicate())
    }

    pub fn user(&self) -> (r: &User<'a>)
        ensures
            r@ == self.user_view(),
    {
        &self.0
    }
}

/// The bot's own identity.
#[derive(Debug, Clone)]
pub struct Bot<'a>(User<'a>);

impl<'a> Bot<'a> {
    pub closed spec fn user_view(&self) -> UserView {
        self.0@
    }

    pub fn from_user(user: User<'a>) -> (r: Self)
        ensures
            r.user_view() == user@,
    {
        Bot(user)
    }

    /// An equal copy.
    pub fn duplicate(&self) -> (r: Self)
        ensures
            r.user_view() == self.user_view(),
    {
        Bot(self.0.duplicate())
    }

    /// The bot known by its login name alone.
    pub fn from_login(login: &'a str) -> (r: Self)
        ensures
            r.user_view() == (UserView { username: login@, display_name: None, user_id: None }),
    {
        Bot(User::from_username(login))
    }

    pub fn user(&self) -> (r: &User<'a>)
        ensures
            r@ == self.user_view(),
    {
        &self.0
    }
}

} // verus!
