use crate::action::{says, Action};
use crate::auth::{answers_verdict, credentials_of, user_verdict, UserRecord};
use crate::message::{entry_in, lemma_pair_views, pair_views, Message, Msg};
use crate::session::{answers_request, field};
use vstd::prelude::*;

verus! {

/// What the server answered to an `auth` request.
#[derive(Debug, PartialEq, Eq)]
pub enum AuthReply {
    /// The session token that was granted.
    Token(String),
    /// The reason the server gave for refusing.
    Refused(String),
    /// An answer that names neither a token nor a reason.
    Unknown,
}

/// The request for the posts.
pub open spec fn posts_request_of() -> Msg {
    Msg::single("cmd"@, "posts"@)
}

/// The request to authenticate as `name` with `passwd`.
pub open spec fn auth_request_of(name: Seq<char>, passwd: Seq<char>) -> Msg {
    Msg::Mapping(
        seq![
            (Msg::String("cmd"@), Msg::String("auth"@)),
            (
                Msg::String("args"@),
                Msg::Mapping(
                    seq![
                        (Msg::String("name"@), Msg::String(name)),
                        (Msg::String("passwd"@), Msg::String(passwd)),
                    ],
                ),
            ),
        ],
    )
}

/// What a response to an `auth` request says: the token where it holds a
/// string under `tok`, else the reason where it holds a string under `err`.
pub open spec fn auth_reply_of(response: Msg) -> (Option<Seq<char>>, Option<Seq<char>>) {
    (response.text_at("tok"@), response.text_at("err"@))
}

/// A line as it was entered: without the character that ends it.
pub fn entered(line: &str) -> (text: &str)
    requires
        line@.len() > 0,
    ensures
        text@ == line@.drop_last(),
{
    let len = line.unicode_len();
    line.substring_char(0, len - 1)
}

/// Builds the request for the posts.
pub fn posts_request() -> (request: Message)
    ensures
        request@ == posts_request_of(),
{
    Message::single("cmd", "posts".to_owned())
}

/// Builds the request to authenticate as `name` with `passwd`.
pub fn auth_request(name: &str, passwd: &str) -> (request: Message)
    ensures
        request@ == auth_request_of(name@, passwd@),
{
    let mut args: Vec<(Message, Message)> = Vec::new();
    args.push((Message::text("name"), Message::text(name)));
    args.push((Message::text("passwd"), Message::text(passwd)));
    proof {
        lemma_pair_views(args@);
        assert(pair_views(args@) =~= seq![
            (Msg::String("name"@), Msg::String(name@)),
            (Msg::String("passwd"@), Msg::String(passwd@)),
        ]);
    }
    let args = Message::Mapping(args);
    let mut pairs: Vec<(Message, Message)> = Vec::new();
    pairs.push((Message::text("cmd"), Message::text("auth")));
    pairs.push((Message::text("args"), args));
    proof {
        lemma_pair_views(pairs@);
        assert(pair_views(pairs@) =~= seq![
            (Msg::String("cmd"@), Msg::String("auth"@)),
            (Msg::String("args"@), args@),
        ]);
    }
    Message::Mapping(pairs)
}

/// Reads the server's answer to an `auth` request. A token counts before a
/// reason.
pub fn read_auth_reply(response: &Message) -> (reply: AuthReply)
    ensures
        match auth_reply_of(response@) {
            (Some(token), _) => reply matches AuthReply::Token(held) && held@ == token,
            (None, Some(reason)) => reply matches AuthReply::Refused(said) && said@ == reason,
            (None, None) => reply is Unknown,
        },
{
    match response.text_at("tok") {
        Some(token) => AuthReply::Token(token.to_owned()),
        None => match response.text_at("err") {
            Some(reason) => AuthReply::Refused(reason.to_owned()),
            None => AuthReply::Unknown,
        },
    }
}

/// The server understands the client: it takes the request for the posts to
/// its collaborator, and it judges an `auth` request on the very name and
/// password that the client put into it.
pub proof fn lemma_requests_are_understood(
    name: Seq<char>,
    passwd: Seq<char>,
    users: Seq<UserRecord>,
    action: Action,
)
    ensures
        answers_request(posts_request_of(), users, action) <==> action is ListPosts,
        answers_request(auth_request_of(name, passwd), users, action) <==> match user_verdict(
            users,
            name,
            passwd,
        ) {
            Ok(verified) => answers_verdict(name, verified, action),
            Err(text) => says(action, text),
        },
{
    reveal_strlit("cmd");
    reveal_strlit("args");
    reveal_strlit("name");
    reveal_strlit("passwd");
    reveal_strlit("posts");
    reveal_strlit("auth");
    assert("auth"@ != "posts"@) by {
        assert("auth"@.len() != "posts"@.len());
    }
    assert("cmd"@ != "args"@) by {
        assert("cmd"@.len() != "args"@.len());
    }
    assert("name"@ != "passwd"@) by {
        assert("name"@.len() != "passwd"@.len());
    }
    let posts = seq![(Msg::String("cmd"@), Msg::String("posts"@))];
    assert(entry_in(posts, "cmd"@) == Some(Msg::String("posts"@)));
    let args = seq![
        (Msg::String("name"@), Msg::String(name)),
        (Msg::String("passwd"@), Msg::String(passwd)),
    ];
    let request = seq![(Msg::String("cmd"@), Msg::String("auth"@)), (Msg::String("args"@), Msg::Mapping(args))];
    assert(entry_in(request, "cmd"@) == Some(Msg::String("auth"@)));
    assert(request.drop_first() =~= seq![(Msg::String("args"@), Msg::Mapping(args))]);
    assert(entry_in(request.drop_first(), "args"@) == Some(Msg::Mapping(args)));
    assert(entry_in(request, "args"@) == Some(Msg::Mapping(args)));
    assert(entry_in(args, "name"@) == Some(Msg::String(name)));
    assert(args.drop_first() =~= seq![(Msg::String("passwd"@), Msg::String(passwd))]);
    assert(entry_in(args.drop_first(), "passwd"@) == Some(Msg::String(passwd)));
    assert(entry_in(args, "passwd"@) == Some(Msg::String(passwd)));
    assert(field(auth_request_of(name, passwd), "args"@) == Msg::Mapping(args));
    assert(credentials_of(Msg::Mapping(args)) == Ok::<(Seq<char>, Seq<char>), Seq<char>>(
        (name, passwd),
    ));
}

} // verus!
