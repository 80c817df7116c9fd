use postboard::action::{grant, refuse, Action};
use postboard::auth::{handle_auth, UserRecord};
use postboard::message::Message;
use postboard::registry::{AuthRegistry, Reply};
use postboard::session::handle_cmd;

fn users(names: &[&str]) -> Vec<UserRecord> {
    names
        .iter()
        .map(|name| UserRecord {
            name: String::from(*name),
            passwd_hash: bcrypt::hash(format!("pw-{}", name), 4).unwrap(),
        })
        .collect()
}

fn auth(name: &str, passwd: &str) -> Message {
    Message::Mapping(vec![
        (Message::text("cmd"), Message::text("auth")),
        (
            Message::text("args"),
            Message::Mapping(vec![
                (Message::text("name"), Message::text(name)),
                (Message::text("passwd"), Message::text(passwd)),
            ]),
        ),
    ])
}

#[test]
fn new_registry_holds_no_token() {
    let registry = AuthRegistry::new();
    assert_eq!(registry.get("alice"), None);
    assert_eq!(registry.get(""), None);
}

#[test]
fn insert_binds_a_token_to_a_name() {
    let mut registry = AuthRegistry::new();
    registry.insert(String::from("alice"), String::from("t1"));
    assert_eq!(registry.get("alice"), Some(&String::from("t1")));
    assert_eq!(registry.get("bob"), None);
}

#[test]
fn insert_supersedes_the_token_before() {
    let mut registry = AuthRegistry::new();
    registry.insert(String::from("alice"), String::from("t1"));
    registry.insert(String::from("bob"), String::from("t2"));
    registry.insert(String::from("alice"), String::from("t3"));
    assert_eq!(registry.get("alice"), Some(&String::from("t3")));
    assert_eq!(registry.get("bob"), Some(&String::from("t2")));
}

#[test]
fn settle_registers_a_grant_and_sends_its_response() {
    let mut registry = AuthRegistry::new();
    let reply = registry.settle(grant("alice", String::from("t1")));
    assert!(matches!(reply, Reply::Message(m) if m == Message::single("tok", String::from("t1"))));
    assert_eq!(registry.get("alice"), Some(&String::from("t1")));
}

#[test]
fn settle_leaves_the_registry_alone_without_a_grant() {
    let mut registry = AuthRegistry::new();
    registry.insert(String::from("alice"), String::from("t1"));
    let reply = registry.settle(refuse());
    assert!(matches!(
        reply,
        Reply::Message(m) if m == Message::single("err", String::from("not_authenticated"))
    ));
    assert!(matches!(registry.settle(Action::ListPosts), Reply::Posts));
    let reply = registry.settle(Action::Respond(Message::text("Invalid command")));
    assert!(matches!(reply, Reply::Message(m) if m == Message::text("Invalid command")));
    assert_eq!(registry.get("alice"), Some(&String::from("t1")));
    assert_eq!(registry.get("bob"), None);
}

#[test]
fn auth_success_registers_the_token_that_was_sent() {
    let users = vec![UserRecord {
        name: String::from("alice"),
        passwd_hash: bcrypt::hash("secret", 4).unwrap(),
    }];
    let mut registry = AuthRegistry::new();
    let reply = registry.settle(handle_cmd(&auth("alice", "secret"), &users));
    let response = match reply {
        Reply::Message(response) => response,
        Reply::Posts => panic!("no message"),
    };
    let token = response.text_at("tok").expect("a token");
    assert!(!token.is_empty());
    assert_eq!(registry.get("alice").map(String::as_str), Some(token));
}

#[test]
fn auth_failure_does_not_touch_the_registry() {
    let users = vec![UserRecord {
        name: String::from("alice"),
        passwd_hash: bcrypt::hash("secret", 4).unwrap(),
    }];
    let mut registry = AuthRegistry::new();
    registry.insert(String::from("alice"), String::from("held"));
    let refusal = || Message::single("err", String::from("not_authenticated"));
    let reply = registry.settle(handle_cmd(&auth("alice", "wrong"), &users));
    assert!(matches!(reply, Reply::Message(m) if m == refusal()));
    let reply = registry.settle(handle_cmd(&auth("nobody", "secret"), &users));
    assert!(matches!(reply, Reply::Message(m) if m == refusal()));
    assert_eq!(registry.get("alice"), Some(&String::from("held")));
    assert_eq!(registry.get("nobody"), None);
}

#[test]
fn grants_to_distinct_names_do_not_cross() {
    let names = ["u0", "u1", "u2", "u3", "u4", "u5", "u6", "u7"];
    let users = users(&names);
    let mut registry = AuthRegistry::new();
    let mut sent: Vec<(String, String)> = Vec::new();
    for name in names.iter().rev() {
        let args = Message::Mapping(vec![
            (Message::text("name"), Message::text(name)),
            (Message::text("passwd"), Message::text(&format!("pw-{}", name))),
        ]);
        let action = handle_auth(&args, &users).expect("an action");
        match registry.settle(action) {
            Reply::Message(response) => {
                let token = response.text_at("tok").expect("a token");
                sent.push((String::from(*name), String::from(token)));
            }
            Reply::Posts => panic!("no message"),
        }
    }
    assert_eq!(sent.len(), names.len());
    for (name, token) in sent.iter() {
        assert_eq!(registry.get(name), Some(token));
    }
    for (i, (_, token)) in sent.iter().enumerate() {
        for (_, other) in sent.iter().skip(i + 1) {
            assert_ne!(token, other);
        }
    }
}
