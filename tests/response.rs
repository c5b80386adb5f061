use kvclient::db::{get_item_outcome, ClientError};
use kvclient::query::{Error, Key, Response};
use kvclient::response::{decode_response, read_item, JsonField, JsonValue};

fn s(text: &str) -> JsonValue {
    JsonValue::Str(text.to_string())
}

fn obj(fields: Vec<(&str, JsonValue)>) -> JsonValue {
    JsonValue::Object(
        fields.into_iter().map(|(name, value)| JsonField { name: name.to_string(), value }).collect(),
    )
}

fn alice_value() -> JsonValue {
    obj(vec![("key", s("0000031500000000")), ("value", s("Alice"))])
}

#[test]
fn get_item_answer_with_item() {
    let v = obj(vec![("type", s("GetItem")), ("item", alice_value())]);
    let item = get_item_outcome(decode_response(&v).unwrap()).unwrap().unwrap();
    assert!(item.key == Key([0, 0, 3, 21, 0, 0, 0, 0]));
    assert_eq!(item.value, "Alice");
}

#[test]
fn get_item_answer_with_null_item() {
    let v = obj(vec![("type", s("GetItem")), ("item", JsonValue::Null)]);
    assert!(get_item_outcome(decode_response(&v).unwrap()).unwrap().is_none());
}

#[test]
fn get_item_answer_without_item_field() {
    let v = obj(vec![("type", s("GetItem"))]);
    assert!(get_item_outcome(decode_response(&v).unwrap()).unwrap().is_none());
}

#[test]
fn deadlock_answer() {
    let v = obj(vec![("type", s("Error")), ("error", s("deadlock"))]);
    let r = get_item_outcome(decode_response(&v).unwrap());
    assert!(matches!(r, Err(ClientError::Server(Error::Deadlock))));
}

#[test]
fn other_error_answer() {
    let v = obj(vec![("type", s("Error")), ("error", s("other")), ("message", s("x"))]);
    match get_item_outcome(decode_response(&v).unwrap()) {
        Err(ClientError::Server(Error::Other { message })) => assert_eq!(message, "x"),
        _ => panic!("expected the store's error"),
    }
}

#[test]
fn put_answer_to_get_is_protocol_violation() {
    let v = obj(vec![("type", s("PutItem"))]);
    let response = decode_response(&v).unwrap();
    assert!(matches!(response, Response::PutItem(_)));
    assert!(matches!(get_item_outcome(response), Err(ClientError::ProtocolViolation)));
}

#[test]
fn scan_answer_keeps_order() {
    let second = obj(vec![("value", s("Bob")), ("key", s("00000316000000ff"))]);
    let v = obj(vec![("type", s("ScanItem")), ("items", JsonValue::Array(vec![alice_value(), second]))]);
    match decode_response(&v).unwrap() {
        Response::ScanItem(out) => {
            assert_eq!(out.items.len(), 2);
            assert_eq!(out.items[0].value, "Alice");
            assert_eq!(out.items[1].value, "Bob");
            assert!(out.items[1].key == Key([0, 0, 3, 22, 0, 0, 0, 255]));
        }
        _ => panic!("expected a scan answer"),
    }
}

#[test]
fn scan_answer_with_bad_item_is_refused() {
    let bad = obj(vec![("key", s("0000031")), ("value", s("Bob"))]);
    let v = obj(vec![("type", s("ScanItem")), ("items", JsonValue::Array(vec![alice_value(), bad]))]);
    assert!(decode_response(&v).is_err());
}

#[test]
fn answers_of_no_known_shape_are_refused() {
    assert!(decode_response(&JsonValue::Null).is_err());
    assert!(decode_response(&obj(vec![("kind", s("GetItem"))])).is_err());
    assert!(decode_response(&obj(vec![("type", s("Delete"))])).is_err());
    assert!(decode_response(&obj(vec![("type", s("ScanItem"))])).is_err());
    assert!(decode_response(&obj(vec![("type", s("Error")), ("error", s("other"))])).is_err());
    assert!(decode_response(&obj(vec![("type", s("Error")), ("error", s("Deadlock"))])).is_err());
    assert!(decode_response(&obj(vec![("type", JsonValue::Bool(true))])).is_err());
}

#[test]
fn item_needs_key_text_and_string_value() {
    assert!(read_item(&alice_value()).is_some());
    assert!(read_item(&obj(vec![("key", s("0000031500000000"))])).is_none());
    assert!(read_item(&obj(vec![("key", s("0000031500000000")), ("value", JsonValue::Number("3".to_string()))])).is_none());
    assert!(read_item(&obj(vec![("key", s("zz00031500000000")), ("value", s("A"))])).is_none());
}

#[test]
fn item_key_may_be_lowercase() {
    let it = read_item(&obj(vec![("key", s("00000000deadbeef")), ("value", s("v"))])).unwrap();
    assert!(it.key == Key([0, 0, 0, 0, 0xde, 0xad, 0xbe, 0xef]));
}
