use uniffi_bindgen::codec::{lift, lower, read, Value};
use uniffi_bindgen::types::Type;

fn round_trips(t: &Type, v: Value) {
    let encoded = lower(t, &v);
    let back = lift(t, &encoded).unwrap();
    assert_eq!(back, v);
}

#[test]
fn scalars_round_trip() {
    round_trips(&Type::UInt32, Value::U32(0));
    round_trips(&Type::UInt32, Value::U32(0xDEAD_BEEF));
    round_trips(&Type::UInt32, Value::U32(u32::MAX));
    round_trips(&Type::Int32, Value::I32(-1));
    round_trips(&Type::Int32, Value::I32(i32::MIN));
    round_trips(&Type::Int32, Value::I32(i32::MAX));
    round_trips(&Type::UInt64, Value::U64(u64::MAX));
    round_trips(&Type::Boolean, Value::Bool(true));
    round_trips(&Type::Boolean, Value::Bool(false));
}

#[test]
fn u32_encoding_is_big_endian() {
    let encoded = lower(&Type::UInt32, &Value::U32(0x0102_0304));
    assert_eq!(encoded, vec![1u8, 2, 3, 4]);
}

#[test]
fn strings_round_trip_with_length_prefix() {
    let text = Value::Text(b"delegates".to_vec());
    let encoded = lower(&Type::String, &text);
    assert_eq!(&encoded[..4], &[0u8, 0, 0, 9]);
    assert_eq!(&encoded[4..], b"delegates");
    assert_eq!(lift(&Type::String, &encoded).unwrap(), text);
    round_trips(&Type::String, Value::Text(Vec::new()));
}

#[test]
fn handles_and_enums_round_trip() {
    round_trips(&Type::Object("O".into()), Value::Handle(7));
    round_trips(
        &Type::DelegateObject("D".into()),
        Value::Handle(u64::MAX),
    );
    round_trips(&Type::CallbackInterface("C".into()), Value::Handle(0));
    round_trips(&Type::Enum("E".into()), Value::EnumIndex(3));
    round_trips(&Type::Error("E".into()), Value::EnumIndex(0));
}

#[test]
fn optionals_and_sequences_round_trip() {
    let opt_u32 = Type::Optional(Box::new(Type::UInt32));
    round_trips(&opt_u32, Value::Nothing);
    round_trips(&opt_u32, Value::Just(Box::new(Value::U32(5))));

    let seq_opt_i32 = Type::Sequence(Box::new(Type::Optional(Box::new(Type::Int32))));
    round_trips(
        &seq_opt_i32,
        Value::List(vec![
            Value::Just(Box::new(Value::I32(-4))),
            Value::Nothing,
            Value::Just(Box::new(Value::I32(0))),
        ]),
    );
    round_trips(&seq_opt_i32, Value::List(vec![]));
}

#[test]
fn dictionaries_round_trip() {
    let t = Type::Dictionary(Box::new(Type::String), Box::new(Type::UInt32));
    round_trips(
        &t,
        Value::Table(vec![
            (Value::Text(b"one".to_vec()), Value::U32(1)),
            (Value::Text(b"two".to_vec()), Value::U32(2)),
        ]),
    );
    round_trips(&t, Value::Table(vec![]));
}

#[test]
fn write_then_read_advances_the_cursor_exactly() {
    let t = Type::Sequence(Box::new(Type::Boolean));
    let v = Value::List(vec![Value::Bool(true), Value::Bool(false)]);
    let mut buf: Vec<u8> = vec![0xAA, 0xBB];
    uniffi_bindgen::codec::write(&t, &v, &mut buf);
    uniffi_bindgen::codec::write(&Type::UInt32, &Value::U32(9), &mut buf);

    let (got, p) = read(&t, &buf, 2).unwrap();
    assert_eq!(got, v);
    // 4 bytes of count, then one byte per element.
    assert_eq!(p, 2 + 4 + 2);
    let (tail, end) = read(&Type::UInt32, &buf, p).unwrap();
    assert_eq!(tail, Value::U32(9));
    assert_eq!(end, buf.len());
}

#[test]
fn lift_rejects_trailing_and_truncated_input() {
    let mut encoded = lower(&Type::UInt32, &Value::U32(1));
    encoded.push(0);
    assert!(lift(&Type::UInt32, &encoded).is_none());

    let short = vec![0u8, 0, 0];
    assert!(lift(&Type::UInt32, &short).is_none());

    // A boolean byte must be 0 or 1.
    assert!(lift(&Type::Boolean, &vec![2u8]).is_none());

    // A bare record reference carries no representable value.
    assert!(lift(&Type::Record("R".into()), &vec![]).is_none());
}
