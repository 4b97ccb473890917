use vstd::prelude::*;

use crate::split::{chars_of, skip_space};
use crate::chatters::ChannelChatters;
use crate::channel_state::{ChannelStateError, StateError};
use crate::error::CommandError;
use crate::user::{Bot, Channel, Sender};

verus! {

/// Why a chat message is not a command.
#[derive(Debug, Clone, Copy, PartialEq, Eq)]
pub enum PrivmsgCommandError {
    DoesNotStartWithBang,
}

impl PrivmsgCommandError {
    pub fn message(&self) -> (r: &'static str)
        ensures
            r@ == "Command does not start with `!`."@,
    {
        "Command does not start with `!`."
    }
}

/// The text of a command: a message that starts with `!`, without leading whitespace.
#[derive(Debug, Clone)]
pub struct Command<'a>(&'a str);

/// The message without its leading whitespace.
pub open spec fn trim_start(t: Seq<char>) -> Seq<char> {
    t.subrange(skip_space(t, 0, t.len() as int), t.len() as int)
}

impl<'a> Command<'a> {
    pub closed spec fn text(&self) -> Seq<char> {
        self.0@
    }

    /// A command made of the given text as it is.
    pub fn new(text: &'a str) -> (r: Self)
        ensures
            r.text() == text@,
    {
        Command(text)
    }

    /// Reads a chat message as a command: after leading whitespace it must start with `!`.
    pub fn from_message(message: &'a str) -> (r: Result<Self, PrivmsgCommandError>)
        ensures
            ({
                let t = trim_start(message@);
                &&& (t.len() > 0 && t[0] == '!') ==> (r matches Ok(c) && c.text() == t)
                &&& !(t.len() > 0 && t[0] == '!') ==> r == Err::<Self, PrivmsgCommandError>(
                    PrivmsgCommandError::DoesNotStartWithBang,
                )
            }),
    {
        let c = chars_of(message);
        let mut k: usize = 0;
        while k < c.len() && crate::split::is_whitespace(c[k])
            invariant
                c@ == message@,
                k <= c.len(),
                skip_space(c@, k as int, c@.len() as int) == skip_space(c@, 0, c@.len() as int),
            decreases c.len() - k,
        {
            k = k + 1;
        }
        if k < c.len() && c[k] == '!' {
            Ok(Command(message.substring_char(k, c.len())))
        } else {
            Err(PrivmsgCommandError::DoesNotStartWithBang)
        }
    }

    pub fn as_str(&self) -> (r: &'a str)
        ensures
            r@ == self.text(),
    {
        self.0
    }
}

/// One command to dispatch: its text, who sent it, where, and to which bot.
#[derive(Debug, Clone)]
pub struct CommandRequest<'req> {
    command: Command<'req>,
    sender: Sender<'req>,
    channel: Channel<'req>,
    bot: &'req Bot<'req>,
}

impl<'req> CommandRequest<'req> {
    pub closed spec fn command_text(&self) -> Seq<char> {
        self.command.text()
    }

    pub closed spec fn sender_view(&self) -> crate::user::UserView {
        self.sender.user_view()
    }

    pub closed spec fn channel_view(&self) -> crate::user::UserView {
        self.channel.user_view()
    }

    pub closed spec fn bot_view(&self) -> crate::user::UserView {
        self.bot.user_view()
    }

    pub fn from_parts(
        command: Command<'req>,
        sender: Sender<'req>,
        channel: Channel<'req>,
        bot: &'req Bot<'req>,
    ) -> (r: Self)
        ensures
            r.command_text() == command.text(),
            r.sender_view() == sender.user_view(),
            r.channel_view() == channel.user_view(),
            r.bot_view() == bot.user_view(),
    {
        CommandRequest { command, sender, channel, bot }
    }

    pub fn command(&self) -> (r: &Command<'req>)
        ensures
            r.text() == self.command_text(),
    {
        &self.command
    }

    pub fn sender(&self) -> (r: &Sender<'req>)
        ensures
            r.user_view() == self.sender_view(),
    {
        &self.sender
    }

    pub fn channel(&self) -> (r: &Channel<'req>)
        ensures
            r.user_view() == self.channel_view(),
    {
        &self.channel
    }

    pub fn bot(&self) -> (r: &Bot<'req>)
        ensures
            r.user_view() == self.bot_view(),
    {
        self.bot
    }

    /// The request is the bot's own message.
    pub fn is_from_bot(&self) -> (r: bool)
        ensures
            r == crate::user::same_user(self.sender_view(), self.bot_view()),
    {
        self.sender.user().is_same_user(self.bot.user())
    }
}

/// Whether a request is dispatched: with `ignore_self` set, the bot's own messages are not.
pub fn should_dispatch(ignore_self: bool, request: &CommandRequest) -> (r: bool)
    ensures
        r == !(ignore_self && crate::user::same_user(request.sender_view(), request.bot_view())),
{
    !(ignore_self && request.is_from_bot())
}

/// A message handed to a filter before any command is dispatched.
#[derive(Debug, Clone)]
pub struct FilterRequest<'req> {
    message: &'req str,
    sender: Sender<'req>,
    channel: Channel<'req>,
    bot: &'req Bot<'req>,
}

impl<'req> FilterRequest<'req> {
    pub closed spec fn message_text(&self) -> Seq<char> {
        self.message@
    }

    pub closed spec fn sender_view(&self) -> crate::user::UserView {
        self.sender.user_view()
    }

    pub closed spec fn channel_view(&self) -> crate::user::UserView {
        self.channel.user_view()
    }

    pub closed spec fn bot_view(&self) -> crate::user::UserView {
        self.bot.user_view()
    }

    pub fn new(
        message: &'req str,
        sender: Sender<'req>,
        channel: Channel<'req>,
        bot: &'req Bot<'req>,
    ) -> (r: Self)
        ensures
            r.message_text() == message@,
            r.sender_view() == sender.user_view(),
            r.channel_view() == channel.user_view(),
            r.bot_view() == bot.user_view(),
    {
        FilterRequest { message, sender, channel, bot }
    }

    pub fn message(&self) -> (r: &'req str)
        ensures
            r@ == self.message_text(),
    {
        self.message
    }

    pub fn sender(&self) -> (r: &Sender<'req>)
        ensures
            r.user_view() == self.sender_view(),
    {
        &self.sender
    }

    pub fn channel(&self) -> (r: &Channel<'req>)
        ensures
            r.user_view() == self.channel_view(),
    {
        &self.channel
    }

    pub fn bot(&self) -> (r: &Bot<'req>)
        ensures
            r.user_view() == self.bot_view(),
    {
        self.bot
    }
}

/// A value a handler can take from the request it handles.
pub trait FromCommandRequest<'a, 'req>: Sized {
    type Error;

    /// `r` is what taking a value from `request` gives.
    spec fn taken_from(request: CommandRequest<'req>, r: Result<Self, Self::Error>) -> bool;

    fn from_command_request(request: &'a CommandRequest<'req>) -> (r: Result<Self, Self::Error>)
        ensures
            Self::taken_from(*request, r),
    ;
}

impl<'a, 'req> FromCommandRequest<'a, 'req> for Sender<'req> {
    type Error = ();

    open spec fn taken_from(request: CommandRequest<'req>, r: Result<Self, ()>) -> bool {
        r matches Ok(s) && s.user_view() == request.sender_view()
    }

    fn from_command_request(request: &'a CommandRequest<'req>) -> (r: Result<Self, ()>) {
        Ok(request.sender().duplicate())
    }
}

impl<'a, 'req> FromCommandRequest<'a, 'req> for Channel<'req> {
    type Error = ();

    open spec fn taken_from(request: CommandRequest<'req>, r: Result<Self, ()>) -> bool {
        r matches Ok(c) && c.user_view() == request.channel_view()
    }

    fn from_command_request(request: &'a CommandRequest<'req>) -> (r: Result<Self, ()>) {
        Ok(request.channel().duplicate())
    }
}

impl<'a, 'req> FromCommandRequest<'a, 'req> for Bot<'req> {
    type Error = ();

    open spec fn taken_from(request: CommandRequest<'req>, r: Result<Self, ()>) -> bool {
        r matches Ok(b) && b.user_view() == request.bot_view()
    }

    fn from_command_request(request: &'a CommandRequest<'req>) -> (r: Result<Self, ()>) {
        Ok(request.bot().duplicate())
    }
}

impl<'a, 'req> FromCommandRequest<'a, 'req> for Command<'req> {
    type Error = ();

    open spec fn taken_from(request: CommandRequest<'req>, r: Result<Self, ()>) -> bool {
        r matches Ok(c) && c.text() == request.command_text()
    }

    fn from_command_request(request: &'a CommandRequest<'req>) -> (r: Result<Self, ()>) {
        Ok(Command(request.command().as_str()))
    }
}

/// A value that cannot be had gives `None` instead of an error.
impl<'a, 'req, T: FromCommandRequest<'a, 'req>> FromCommandRequest<'a, 'req> for Option<T> {
    type Error = ();

    open spec fn taken_from(request: CommandRequest<'req>, r: Result<Self, ()>) -> bool {
        match r {
            Ok(Some(v)) => T::taken_from(request, Ok(v)),
            Ok(None) => exists|e: T::Error| T::taken_from(request, Err(e)),
            Err(_) => false,
        }
    }

    fn from_command_request(request: &'a CommandRequest<'req>) -> (r: Result<Self, ()>) {
        match T::from_command_request(request) {
            Ok(v) => Ok(Some(v)),
            Err(_) => Ok(None),
        }
    }
}

/// The value, or `None` when it cannot be had: taking it never fails.
pub fn from_command_request_option<'a, 'req, T: FromCommandRequest<'a, 'req>>(
    request: &'a CommandRequest<'req>,
) -> (r: Option<T>)
    ensures
        match r {
            Some(v) => T::taken_from(*request, Ok(v)),
            None => exists|e: T::Error| T::taken_from(*request, Err(e)),
        },
{
    match T::from_command_request(request) {
        Ok(v) => Some(v),
        Err(_) => None,
    }
}

/// The value, or the reason it cannot be had as a `RequestError`.
pub fn from_command_request_err<'a, 'req, T: FromCommandRequest<'a, 'req>>(
    request: &'a CommandRequest<'req>,
) -> (r: Result<T, CommandError<T::Error>>)
    ensures
        match r {
            Ok(v) => T::taken_from(*request, Ok(v)),
            Err(CommandError::RequestError(e)) => T::taken_from(*request, Err(e)),
            Err(_) => false,
        },
{
    match T::from_command_request(request) {
        Ok(v) => Ok(v),
        Err(e) => Err(CommandError::RequestError(e)),
    }
}

/// A handle on a value of the process-wide state.
pub struct State<'req, T>(&'req T);

/// A handle on a value of the channel's state.
pub struct ChannelState<'req, T>(&'req T);

impl<'req, T> State<'req, T> {
    pub closed spec fn value(&self) -> T {
        *self.0
    }

    pub fn get(&self) -> (r: &'req T)
        ensures
            *r == self.value(),
    {
        self.0
    }
}

impl<'req, T> ChannelState<'req, T> {
    pub closed spec fn value(&self) -> T {
        *self.0
    }

    pub fn get(&self) -> (r: &'req T)
        ensures
            *r == self.value(),
    {
        self.0
    }
}

/// What a request can reach besides its own fields: the process-wide state `G`, the state
/// `C` of its channel when per-channel state is configured, and the chatters registry.
pub struct RequestContext<'req, G, C> {
    global: &'req G,
    channel: Option<&'req C>,
    chatters: &'req ChannelChatters,
}

impl<'req, G, C> RequestContext<'req, G, C> {
    pub closed spec fn global(&self) -> G {
        *self.global
    }

    pub closed spec fn channel_state_value(&self) -> Option<C> {
        match self.channel {
            Some(c) => Some(*c),
            None => None,
        }
    }

    pub fn new(global: &'req G, channel: Option<&'req C>, chatters: &'req ChannelChatters) -> (r:
        Self)
        ensures
            r.global() == *global,
            r.registry() == *chatters,
            r.channel_state_value() == match channel {
                Some(c) => Some(*c),
                None => None::<C>,
            },
    {
        RequestContext { global, channel, chatters }
    }

    pub closed spec fn registry(&self) -> ChannelChatters {
        *self.chatters
    }

    /// The chatters registry the request can read.
    pub fn chatters(&self) -> (r: &'req ChannelChatters)
        ensures
            *r == self.registry(),
    {
        self.chatters
    }
}

/// The process-wide state, through the request's context; `NoContext` when the request
/// carries none.
pub fn state<'req, G, C>(context: Option<&RequestContext<'req, G, C>>) -> (r: Result<
    State<'req, G>,
    StateError,
>)
    ensures
        match context {
            None => r == Err::<State<'req, G>, StateError>(StateError::NoContext),
            Some(c) => r matches Ok(s) && s.value() == c.global(),
        },
{
    match context {
        None => Err(StateError::NoContext),
        Some(c) => Ok(State(c.global)),
    }
}

/// The channel's state, through the request's context; `NoContext` when the request carries
/// none, `NoChannelContainer` when no per-channel state is configured.
pub fn channel_state<'req, G, C>(context: Option<&RequestContext<'req, G, C>>) -> (r: Result<
    ChannelState<'req, C>,
    ChannelStateError,
>)
    ensures
        match context {
            None => r == Err::<ChannelState<'req, C>, ChannelStateError>(
                ChannelStateError::NoContext,
            ),
            Some(c) => match c.channel_state_value() {
                None => r == Err::<ChannelState<'req, C>, ChannelStateError>(
                    ChannelStateError::NoChannelContainer,
                ),
                Some(v) => r matches Ok(s) && s.value() == v,
            },
        },
{
    match context {
        None => Err(ChannelStateError::NoContext),
        Some(c) => match c.channel {
            None => Err(ChannelStateError::NoChannelContainer),
            Some(v) => Ok(ChannelState(v)),
        },
    }
}

} // verus!
