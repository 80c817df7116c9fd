use postboard::action::{say, Action};
use postboard::auth::UserRecord;
use postboard::codec::CodecError;
use postboard::message::Message;
use postboard::session::{handle_client, handle_cmd, Incoming, Step};

fn users() -> Vec<UserRecord> {
    vec![
        UserRecord {
            name: String::from("alice"),
            passwd_hash: bcrypt::hash("secret", 4).unwrap(),
        },
        UserRecord { name: String::from("mallory"), passwd_hash: String::from("$2b$xx$short") },
    ]
}

fn auth(name: &str, passwd: &str) -> Message {
    Message::Mapping(vec![
        (Message::text("cmd"), Message::text("auth")),
        (
            Message::text("args"),
            Message::Mapping(vec![
                (Message::text("name"), Message::text(name)),
                (Message::text("passwd"), Message::text(passwd)),
            ]),
        ),
    ])
}

fn said(action: Action) -> Message {
    match action {
        Action::Respond(message) => message,
        other => panic!("no plain response: {:?}", other),
    }
}

#[test]
fn handle_cmd_grants_alice_a_token() {
    match handle_cmd(&auth("alice", "secret"), &users()) {
        Action::Grant { name, token, response } => {
            assert_eq!(name, "alice");
            assert!(!token.is_empty());
            assert_eq!(response, Message::single("tok", token));
        }
        other => panic!("no grant: {:?}", other),
    }
}

#[test]
fn handle_cmd_refuses_bad_credentials() {
    let refusal = || Message::single("err", String::from("not_authenticated"));
    assert_eq!(said(handle_cmd(&auth("alice", "wrong"), &users())), refusal());
    assert_eq!(said(handle_cmd(&auth("nobody", "secret"), &users())), refusal());
}

#[test]
fn handle_cmd_calls_an_unknown_command_invalid() {
    let request = Message::single("cmd", String::from("bogus"));
    assert_eq!(said(handle_cmd(&request, &users())), Message::text("Invalid command"));
    let request = Message::single("cmd", String::from(""));
    assert_eq!(said(handle_cmd(&request, &users())), Message::text("Invalid command"));
    let request = Message::single("cmd", String::from("Posts"));
    assert_eq!(said(handle_cmd(&request, &users())), Message::text("Invalid command"));
}

#[test]
fn handle_cmd_calls_a_request_without_cmd_badly_formatted() {
    let bad = || Message::text("Badly formatted command");
    let users = users();
    assert_eq!(said(handle_cmd(&Message::Mapping(vec![]), &users)), bad());
    assert_eq!(said(handle_cmd(&Message::single("command", String::from("posts")), &users)), bad());
    assert_eq!(said(handle_cmd(&Message::Nil, &users)), bad());
    assert_eq!(said(handle_cmd(&Message::text("posts"), &users)), bad());
    assert_eq!(said(handle_cmd(&Message::Array(vec![Message::text("cmd")]), &users)), bad());
    let numbered = Message::Mapping(vec![(Message::text("cmd"), Message::PosInt(1))]);
    assert_eq!(said(handle_cmd(&numbered, &users)), bad());
}

#[test]
fn handle_cmd_hands_posts_to_the_collaborator() {
    let request = Message::single("cmd", String::from("posts"));
    assert!(matches!(handle_cmd(&request, &users()), Action::ListPosts));
}

#[test]
fn handle_cmd_tells_what_an_auth_request_lacks() {
    let users = users();
    let request = Message::single("cmd", String::from("auth"));
    assert_eq!(said(handle_cmd(&request, &users)), Message::text("Missing name"));
    let request = Message::Mapping(vec![
        (Message::text("cmd"), Message::text("auth")),
        (Message::text("args"), Message::single("name", String::from("alice"))),
    ]);
    assert_eq!(said(handle_cmd(&request, &users)), Message::text("Missing password"));
    let request = Message::Mapping(vec![
        (Message::text("cmd"), Message::text("auth")),
        (Message::text("args"), Message::text("alice")),
    ]);
    assert_eq!(said(handle_cmd(&request, &users)), Message::text("Missing name"));
}

#[test]
fn handle_cmd_tells_an_internal_error_as_its_text() {
    let response = said(handle_cmd(&auth("mallory", "secret"), &users()));
    assert_eq!(response, Message::text("Invalid Cost: xx"));
    assert_ne!(response, Message::single("err", String::from("not_authenticated")));
}

#[test]
fn handle_client_finishes_when_the_stream_ends() {
    assert!(matches!(handle_client(Incoming::Ended, &users()), Step::Finish));
}

#[test]
fn handle_client_aborts_on_a_framing_error() {
    let users = users();
    let oversized = Incoming::Unframed(CodecError::Oversized);
    assert!(matches!(handle_client(oversized, &users), Step::Abort));
    let deep = Incoming::Unframed(CodecError::DepthExceeded);
    assert!(matches!(handle_client(deep, &users), Step::Abort));
    let malformed = Incoming::Unframed(CodecError::Malformed);
    assert!(matches!(handle_client(malformed, &users), Step::Abort));
    assert!(matches!(handle_client(Incoming::Broken, &users), Step::Abort));
}

#[test]
fn handle_client_goes_on_after_an_unknown_command() {
    let users = users();
    let bogus = Incoming::Message(Message::single("cmd", String::from("bogus")));
    match handle_client(bogus, &users) {
        Step::Dispatch(action) => assert_eq!(said(action), Message::text("Invalid command")),
        other => panic!("session stopped: {:?}", other),
    }
    let valid = Incoming::Message(Message::single("cmd", String::from("posts")));
    assert!(matches!(handle_client(valid, &users), Step::Dispatch(Action::ListPosts)));
}

#[test]
fn handle_client_goes_on_after_a_badly_formatted_command() {
    let users = users();
    let bad = Incoming::Message(Message::Array(vec![]));
    match handle_client(bad, &users) {
        Step::Dispatch(action) => {
            assert_eq!(said(action), Message::text("Badly formatted command"))
        }
        other => panic!("session stopped: {:?}", other),
    }
    let valid = Incoming::Message(auth("alice", "secret"));
    assert!(matches!(handle_client(valid, &users), Step::Dispatch(Action::Grant { .. })));
}

#[test]
fn say_answers_with_a_bare_string() {
    assert_eq!(said(say(String::from("Invalid command"))), Message::text("Invalid command"));
    assert_eq!(said(say(String::new())), Message::text(""));
}
