use crate::action::{say, says, Action};
use crate::auth::{answers_verdict, auth_judgement, handle_auth, UserRecord};
use crate::codec::CodecError;
use crate::message::{Message, Msg};
use vstd::prelude::*;

verus! {

/// What a read on the connection brought.
#[derive(Debug)]
pub enum Incoming {
    /// The peer closed the stream in good order.
    Ended,
    /// One complete message.
    Message(Message),
    /// The bytes received cannot be framed.
    Unframed(CodecError),
    /// The transport failed.
    Broken,
}

/// How the session goes on after a read.
#[derive(Debug)]
pub enum Step {
    /// The peer is gone: release the connection. Nothing is reported.
    Finish,
    /// Report the failure and drop the connection at once. What is buffered
    /// is not looked at again.
    Abort,
    /// Carry the action out, flush its response, then read again.
    Dispatch(Action),
}

/// The value that a request holds under `key`, nil where it holds none.
pub open spec fn field(request: Msg, key: Seq<char>) -> Msg {
    match request.entry(key) {
        Some(value) => value,
        None => Msg::Nil,
    }
}

/// Whether `action` is what `request` calls for against the configured
/// `users`.
///
/// A request is a mapping with a string under `cmd`; anything else is badly
/// formatted. `posts` goes to the post-listing collaborator, `auth` is
/// handled with what stands under `args`, and an error of that handling is
/// told to the client as its text. Every other command is invalid.
pub open spec fn answers_request(request: Msg, users: Seq<UserRecord>, action: Action) -> bool {
    match request.text_at("cmd"@) {
        None => says(action, "Badly formatted command"@),
        Some(cmd) => if cmd == "posts"@ {
            action is ListPosts
        } else if cmd == "auth"@ {
            match auth_judgement(field(request, "args"@), users) {
                Err(text) => says(action, text),
                Ok((name, verified)) => answers_verdict(name, verified, action),
            }
        } else {
            says(action, "Invalid command"@)
        },
    }
}

/// Whether two texts are the same.
fn same_text(a: &str, b: &str) -> (same: bool)
    ensures
        same == (a@ == b@),
{
    a.to_owned() == b.to_owned()
}

/// Decides what to do about one request. No request stops the session: a
/// request that cannot be served is answered with the reason.
pub fn handle_cmd(request: &Message, users: &Vec<UserRecord>) -> (action: Action)
    ensures
        answers_request(request@, users@, action),
{
    let cmd = match request.text_at("cmd") {
        Some(cmd) => cmd,
        None => {
            return say("Badly formatted command".to_owned());
        },
    };
    if same_text(cmd, "posts") {
        Action::ListPosts
    } else if same_text(cmd, "auth") {
        let nil = Message::Nil;
        let args = match request.get("args") {
            Some(args) => args,
            None => &nil,
        };
        match handle_auth(args, users) {
            Ok(action) => action,
            Err(text) => say(text),
        }
    } else {
        say("Invalid command".to_owned())
    }
}

/// Decides how the session goes on after a read.
///
/// Only the end of the stream and a failure to read end the session. A
/// message is always dispatched, whatever it holds.
pub fn handle_client(incoming: Incoming, users: &Vec<UserRecord>) -> (step: Step)
    ensures
        match incoming {
            Incoming::Ended => step is Finish,
            Incoming::Message(request) => step matches Step::Dispatch(action) && answers_request(
                request@,
                users@,
                action,
            ),
            Incoming::Unframed(_) => step is Abort,
            Incoming::Broken => step is Abort,
        },
{
    match incoming {
        Incoming::Ended => Step::Finish,
        Incoming::Message(request) => Step::Dispatch(handle_cmd(&request, users)),
        Incoming::Unframed(_) => Step::Abort,
        Incoming::Broken => Step::Abort,
    }
}

} // verus!
