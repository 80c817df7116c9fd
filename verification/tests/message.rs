use postboard::message::Message;

fn command() -> Message {
    Message::Mapping(vec![
        (Message::PosInt(1), Message::text("number")),
        (Message::Binary(b"cmd".to_vec()), Message::text("binary")),
        (Message::text("cmd"), Message::text("first")),
        (Message::text("cmd"), Message::text("second")),
        (Message::text("n"), Message::PosInt(4)),
    ])
}

#[test]
fn text_builds_a_string() {
    assert_eq!(Message::text("abc"), Message::String(String::from("abc")));
}

#[test]
fn single_builds_a_mapping_of_one_entry() {
    assert_eq!(
        Message::single("err", String::from("no")),
        Message::Mapping(vec![(Message::text("err"), Message::text("no"))])
    );
}

#[test]
fn as_str_is_the_text_of_a_string_only() {
    assert_eq!(Message::text("abc").as_str(), Some("abc"));
    assert_eq!(Message::text("").as_str(), Some(""));
    assert_eq!(Message::Binary(b"abc".to_vec()).as_str(), None);
    assert_eq!(Message::Nil.as_str(), None);
    assert_eq!(Message::PosInt(1).as_str(), None);
}

#[test]
fn get_finds_the_first_string_key() {
    let message = command();
    assert_eq!(message.get("cmd"), Some(&Message::text("first")));
    assert_eq!(message.get("n"), Some(&Message::PosInt(4)));
}

#[test]
fn get_finds_nothing_under_a_missing_key() {
    assert_eq!(command().get("args"), None);
    assert_eq!(command().get("1"), None);
    assert_eq!(Message::Mapping(vec![]).get("cmd"), None);
}

#[test]
fn get_finds_nothing_in_what_is_no_mapping() {
    assert_eq!(Message::Nil.get("cmd"), None);
    assert_eq!(Message::text("cmd").get("cmd"), None);
    assert_eq!(Message::Array(vec![Message::text("cmd")]).get("cmd"), None);
}

#[test]
fn text_at_wants_a_string_under_the_key() {
    let message = command();
    assert_eq!(message.text_at("cmd"), Some("first"));
    assert_eq!(message.text_at("n"), None);
    assert_eq!(message.text_at("missing"), None);
    assert_eq!(Message::Nil.text_at("cmd"), None);
}

#[test]
fn nests_within_counts_containers() {
    assert!(Message::Nil.nests_within(0));
    assert!(Message::text("a").nests_within(0));
    assert!(Message::Binary(vec![1]).nests_within(0));
    assert!(!Message::Array(vec![]).nests_within(0));
    assert!(Message::Array(vec![]).nests_within(1));
    assert!(!Message::Mapping(vec![]).nests_within(0));
    assert!(Message::Mapping(vec![]).nests_within(1));
    let two = Message::Array(vec![Message::Array(vec![Message::PosInt(1)])]);
    assert!(!two.nests_within(1));
    assert!(two.nests_within(2));
    assert!(two.nests_within(usize::MAX));
}

#[test]
fn nests_within_follows_the_deepest_branch() {
    let message = Message::Array(vec![
        Message::Nil,
        Message::Mapping(vec![
            (Message::text("k"), Message::PosInt(1)),
            (Message::Array(vec![Message::Array(vec![])]), Message::Nil),
        ]),
        Message::Array(vec![Message::Nil]),
    ]);
    assert!(!message.nests_within(3));
    assert!(message.nests_within(4));
    let in_value = Message::Mapping(vec![(Message::Nil, Message::Array(vec![Message::Nil]))]);
    assert!(!in_value.nests_within(1));
    assert!(in_value.nests_within(2));
}
