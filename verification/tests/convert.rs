use postboard::message::Message;
use rmpv::Value;

#[test]
fn from_value_converts_scalars() {
    assert_eq!(Message::from_value(Value::Nil), Message::Nil);
    assert_eq!(Message::from_value(Value::Boolean(true)), Message::Boolean(true));
    assert_eq!(Message::from_value(Value::from(7u64)), Message::PosInt(7));
    assert_eq!(Message::from_value(Value::from(7i64)), Message::PosInt(7));
    assert_eq!(Message::from_value(Value::from(-7i64)), Message::NegInt(-7));
    assert_eq!(Message::from_value(Value::from(u64::MAX)), Message::PosInt(u64::MAX));
    assert_eq!(Message::from_value(Value::from("text")), Message::text("text"));
    assert_eq!(Message::from_value(Value::Binary(vec![1, 2])), Message::Binary(vec![1, 2]));
    assert_eq!(Message::from_value(Value::Ext(5, vec![6])), Message::Ext(5, vec![6]));
}

#[test]
fn from_value_keeps_float_bits() {
    assert_eq!(Message::from_value(Value::F32(1.5)), Message::F32(0x3fc0_0000));
    assert_eq!(Message::from_value(Value::F64(-2.0)), Message::F64(0xc000_0000_0000_0000));
    let quiet = f64::from_bits(0x7ff8_0000_0000_0001);
    assert_eq!(Message::from_value(Value::F64(quiet)), Message::F64(0x7ff8_0000_0000_0001));
}

#[test]
fn from_value_keeps_the_order_of_items_and_pairs() {
    let value = Value::Array(vec![
        Value::from(1u64),
        Value::from(2u64),
        Value::Map(vec![
            (Value::from("b"), Value::from(1u64)),
            (Value::from("a"), Value::from(2u64)),
            (Value::from("b"), Value::Nil),
        ]),
    ]);
    let expected = Message::Array(vec![
        Message::PosInt(1),
        Message::PosInt(2),
        Message::Mapping(vec![
            (Message::text("b"), Message::PosInt(1)),
            (Message::text("a"), Message::PosInt(2)),
            (Message::text("b"), Message::Nil),
        ]),
    ]);
    assert_eq!(Message::from_value(value), expected);
}

#[test]
fn into_value_converts_each_kind() {
    assert_eq!(Message::Nil.into_value(), Value::Nil);
    assert_eq!(Message::Boolean(false).into_value(), Value::Boolean(false));
    assert_eq!(Message::PosInt(9).into_value(), Value::from(9u64));
    assert_eq!(Message::NegInt(-9).into_value(), Value::from(-9i64));
    assert_eq!(Message::F32(0x3fc0_0000).into_value(), Value::F32(1.5));
    assert_eq!(Message::F64(0xc000_0000_0000_0000).into_value(), Value::F64(-2.0));
    assert_eq!(Message::text("t").into_value(), Value::from("t"));
    assert_eq!(Message::Binary(vec![3]).into_value(), Value::Binary(vec![3]));
    assert_eq!(Message::Ext(-1, vec![4]).into_value(), Value::Ext(-1, vec![4]));
}

#[test]
fn into_value_keeps_the_order_of_items_and_pairs() {
    let message = Message::Mapping(vec![
        (Message::text("z"), Message::Array(vec![Message::PosInt(3), Message::PosInt(1)])),
        (Message::text("a"), Message::Array(vec![])),
    ]);
    let expected = Value::Map(vec![
        (Value::from("z"), Value::Array(vec![Value::from(3u64), Value::from(1u64)])),
        (Value::from("a"), Value::Array(vec![])),
    ]);
    assert_eq!(message.into_value(), expected);
}

#[test]
fn a_positive_integer_has_one_form() {
    assert_eq!(Message::NegInt(5).into_value(), Value::from(5u64));
    assert_eq!(Message::from_value(Message::NegInt(5).into_value()), Message::PosInt(5));
}
