use crate::message::{Message, Msg};
use vstd::prelude::*;

verus! {

/// What the server does about one request.
#[derive(Debug)]
pub enum Action {
    /// Send this message back.
    Respond(Message),
    /// Ask the post-listing collaborator and relay what it returns.
    ListPosts,
    /// Bind `token` to `name` in the registry, then send `response`.
    Grant { name: String, token: String, response: Message },
}

/// The response to credentials that were not accepted. It is the same for a
/// wrong password and for a name that is not configured.
pub open spec fn not_authenticated() -> Msg {
    Msg::single("err"@, "not_authenticated"@)
}

/// Whether `action` is a response that is the bare string `text`.
pub open spec fn says(action: Action, text: Seq<char>) -> bool {
    &&& action matches Action::Respond(response)
    &&& response@ == Msg::String(text)
}

/// Whether `action` grants `token` to `name` and answers with the token.
pub open spec fn is_grant(action: Action, name: Seq<char>, token: Seq<char>) -> bool {
    &&& action matches Action::Grant { name: granted, token: bound, response }
    &&& granted@ == name
    &&& bound@ == token
    &&& response@ == Msg::single("tok"@, token)
}

/// Whether `action` is the refusal, which grants nothing.
pub open spec fn is_refusal(action: Action) -> bool {
    &&& action matches Action::Respond(response)
    &&& response@ == not_authenticated()
}

/// Tells the client `text`, as a bare string.
pub fn say(text: String) -> (action: Action)
    ensures
        says(action, text@),
{
    Action::Respond(Message::String(text))
}

/// Grants `token` to `name`: the token is to be bound to the name, and the
/// user is told the token.
pub fn grant(name: &str, token: String) -> (action: Action)
    ensures
        is_grant(action, name@, token@),
{
    let response = Message::single("tok", token.clone());
    Action::Grant { name: name.to_owned(), token, response }
}

/// Refuses credentials, without saying what was wrong with them.
pub fn refuse() -> (action: Action)
    ensures
        is_refusal(action),
{
    Action::Respond(Message::single("err", "not_authenticated".to_owned()))
}

/// What is told to the client as a bare string is never taken for the
/// refusal, nor for a grant: an error cannot pass for a judgement.
pub proof fn lemma_text_is_no_judgement(action: Action, text: Seq<char>)
    requires
        says(action, text),
    ensures
        !is_refusal(action),
        !(action is Grant),
{
}

} // verus!
