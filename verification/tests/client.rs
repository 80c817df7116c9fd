use bytes::BytesMut;
use postboard::action::Action;
use postboard::auth::UserRecord;
use postboard::client::{auth_request, entered, posts_request, read_auth_reply, AuthReply};
use postboard::codec::Codec;
use postboard::message::Message;
use postboard::session::handle_cmd;

#[test]
fn entered_drops_the_end_of_the_line() {
    assert_eq!(entered("alice\n"), "alice");
    assert_eq!(entered("\n"), "");
    assert_eq!(entered("pässwörd\n"), "pässwörd");
    assert_eq!(entered("ab"), "a");
}

#[test]
fn posts_request_asks_for_posts() {
    assert_eq!(
        posts_request(),
        Message::Mapping(vec![(Message::text("cmd"), Message::text("posts"))])
    );
}

#[test]
fn auth_request_carries_name_and_password() {
    let expected = Message::Mapping(vec![
        (Message::text("cmd"), Message::text("auth")),
        (
            Message::text("args"),
            Message::Mapping(vec![
                (Message::text("name"), Message::text("alice")),
                (Message::text("passwd"), Message::text("secret")),
            ]),
        ),
    ]);
    assert_eq!(auth_request("alice", "secret"), expected);
}

#[test]
fn read_auth_reply_finds_the_token() {
    let response = Message::single("tok", String::from("abc"));
    assert_eq!(read_auth_reply(&response), AuthReply::Token(String::from("abc")));
}

#[test]
fn read_auth_reply_finds_the_reason() {
    let response = Message::single("err", String::from("not_authenticated"));
    assert_eq!(
        read_auth_reply(&response),
        AuthReply::Refused(String::from("not_authenticated"))
    );
}

#[test]
fn read_auth_reply_prefers_the_token() {
    let response = Message::Mapping(vec![
        (Message::text("err"), Message::text("late")),
        (Message::text("tok"), Message::text("abc")),
    ]);
    assert_eq!(read_auth_reply(&response), AuthReply::Token(String::from("abc")));
}

#[test]
fn read_auth_reply_does_not_know_other_answers() {
    assert_eq!(read_auth_reply(&Message::text("Invalid command")), AuthReply::Unknown);
    assert_eq!(read_auth_reply(&Message::Nil), AuthReply::Unknown);
    let numbered = Message::Mapping(vec![(Message::text("tok"), Message::PosInt(1))]);
    assert_eq!(read_auth_reply(&numbered), AuthReply::Unknown);
}

#[test]
fn a_request_travels_from_client_to_server() {
    let users = vec![UserRecord {
        name: String::from("alice"),
        passwd_hash: bcrypt::hash("secret", 4).unwrap(),
    }];
    let codec = Codec::new();
    let mut wire = BytesMut::new();
    codec.encode(auth_request(entered("alice\n"), entered("secret\n")), &mut wire);
    let request = codec.decode(&mut wire).expect("a frame").expect("a message");
    let response = match handle_cmd(&request, &users) {
        Action::Grant { response, .. } => response,
        other => panic!("no grant: {:?}", other),
    };
    codec.encode(response, &mut wire);
    let response = codec.decode(&mut wire).expect("a frame").expect("a message");
    assert!(matches!(read_auth_reply(&response), AuthReply::Token(token) if token.len() == 36));
}
