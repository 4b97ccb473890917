use vstd::prelude::*;

use crate::split::{chars_of, skip_space};

verus! {

/// What a handler answers: an optional text, sent as a reply to the message when `reply`
/// is set, and allowed to start with `/` or `.` (a chat command) when `command` is set.
#[derive(Debug, Clone)]
pub struct Response {
    text: Option<String>,
    reply: bool,
    command: bool,
}

pub open spec fn opt_text(o: Option<String>) -> Option<Seq<char>> {
    match o {
        Some(s) => Some(s@),
        None => None,
    }
}

impl Response {
    pub closed spec fn text(&self) -> Option<Seq<char>> {
        opt_text(self.text)
    }

    pub closed spec fn is_reply(&self) -> bool {
        self.reply
    }

    pub closed spec fn is_command(&self) -> bool {
        self.command
    }

    pub fn new(response: String) -> (r: Self)
        ensures
            r.text() == Some(response@),
            !r.is_reply(),
            !r.is_command(),
    {
        Response { text: Some(response), reply: false, command: false }
    }

    pub fn as_reply(self) -> (r: Self)
        ensures
            r.text() == self.text(),
            r.is_reply(),
            r.is_command() == self.is_command(),
    {
        Response { text: self.text, reply: true, command: self.command }
    }

    pub fn as_command(self) -> (r: Self)
        ensures
            r.text() == self.text(),
            r.is_reply() == self.is_reply(),
            r.is_command(),
    {
        Response { text: self.text, reply: self.reply, command: true }
    }

    /// No answer.
    pub fn none() -> (r: Self)
        ensures
            r.text() is None,
            !r.is_reply(),
            !r.is_command(),
    {
        Response { text: None, reply: false, command: false }
    }

    pub fn response(&self) -> (r: Option<&str>)
        ensures
            match r {
                Some(t) => self.text() == Some(t@),
                None => self.text() is None,
            },
    {
        match &self.text {
            Some(t) => Some(t.as_str()),
            None => None,
        }
    }

    pub fn reply(&self) -> (r: bool)
        ensures
            r == self.is_reply(),
    {
        self.reply
    }

    pub fn command(&self) -> (r: bool)
        ensures
            r == self.is_command(),
    {
        self.command
    }

    /// The text to send, if any: not blank, and, unless the response is a command, not
    /// starting (after leading whitespace) with `/` or `.`.
    pub fn outgoing_text(&self) -> (r: Option<&str>)
        ensures
            match self.text() {
                None => r is None,
                Some(t) => if sendable(t, self.is_command()) {
                    r matches Some(x) && x@ == t
                } else {
                    r is None
                },
            },
    {
        match &self.text {
            None => None,
            Some(t) => {
                let c = chars_of(t.as_str());
                let first = first_non_space(&c);
                let blank = first == c.len();
                let guarded = !blank && (c[first] == '/' || c[first] == '.');
                if blank || (guarded && !self.command) {
                    None
                } else {
                    Some(t.as_str())
                }
            },
        }
    }
}

/// The chat command that deletes the message with `message_id`: `.delete <id>`, marked as a
/// command so that it is sent.
pub fn delete_message(message_id: &str) -> (r: Response)
    ensures
        r.text() == Some(seq!['.', 'd', 'e', 'l', 'e', 't', 'e', ' '] + message_id@),
        r.is_command(),
        !r.is_reply(),
{
    proof {
        reveal_strlit(".delete ");
    }
    let mut text = String::from_str(".delete ");
    text.append(message_id);
    assert(text@ =~= seq!['.', 'd', 'e', 'l', 'e', 't', 'e', ' '] + message_id@);
    Response::new(text).as_command()
}

/// A text may be sent when it is not blank and, unless it is a command, does not start with
/// `/` or `.` after its leading whitespace.
pub open spec fn sendable(t: Seq<char>, command: bool) -> bool {
    let f = skip_space(t, 0, t.len() as int);
    &&& f < t.len()
    &&& (command || (t[f] != '/' && t[f] != '.'))
}

fn first_non_space(c: &Vec<char>) -> (r: usize)
    ensures
        r == skip_space(c@, 0, c@.len() as int),
        r <= c.len(),
{
    let mut k: usize = 0;
    while k < c.len() && crate::split::is_whitespace(c[k])
        invariant
            k <= c.len(),
            skip_space(c@, k as int, c@.len() as int) == skip_space(c@, 0, c@.len() as int),
        decreases c.len() - k,
    {
        k = k + 1;
    }
    k
}

/// A value a handler returns, turned into the response to send.
pub trait IntoResponse: Sized {
    /// `r` is the response for `self`.
    spec fn responds(self, r: Response) -> bool;

    fn into_response(self) -> (r: Response)
        ensures
            self.responds(r),
    ;
}

impl IntoResponse for () {
    open spec fn responds(self, r: Response) -> bool {
        r.text() is None && !r.is_reply() && !r.is_command()
    }

    fn into_response(self) -> (r: Response) {
        Response::none()
    }
}

impl IntoResponse for String {
    open spec fn responds(self, r: Response) -> bool {
        r.text() == Some(self@) && !r.is_reply() && !r.is_command()
    }

    fn into_response(self) -> (r: Response) {
        Response::new(self)
    }
}

impl<'a> IntoResponse for &'a str {
    open spec fn responds(self, r: Response) -> bool {
        r.text() == Some(self@) && !r.is_reply() && !r.is_command()
    }

    fn into_response(self) -> (r: Response) {
        Response::new(self.to_owned())
    }
}

impl IntoResponse for Response {
    open spec fn responds(self, r: Response) -> bool {
        r.text() == self.text() && r.is_reply() == self.is_reply() && r.is_command()
            == self.is_command()
    }

    fn into_response(self) -> (r: Response) {
        self
    }
}

impl<T: IntoResponse> IntoResponse for Option<T> {
    open spec fn responds(self, r: Response) -> bool {
        match self {
            None => r.text() is None && !r.is_reply() && !r.is_command(),
            Some(v) => v.responds(r),
        }
    }

    fn into_response(self) -> (r: Response) {
        match self {
            None => Response::none(),
            Some(v) => v.into_response(),
        }
    }
}

/// A response to be sent as a reply.
#[derive(Debug, Default, PartialEq, Eq)]
pub struct ReplyResponse<T>(pub T);

/// A response that is a chat command.
#[derive(Debug, Default, PartialEq, Eq)]
pub struct CommandResponse<T>(pub T);

} // verus!
