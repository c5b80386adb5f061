use kvclient::db::{table_tweets, table_users, TweetKey, UserKey};
use kvclient::encode::encode_request;
use kvclient::query::{GetItemInput, Item, Key, PutItemInput, Request, ScanItemInput};

fn text(request: &Request) -> String {
    String::from_utf8(encode_request(request).unwrap()).unwrap()
}

#[test]
fn get_item_request_text() {
    let request = Request::GetItem(GetItemInput {
        table_id: table_users(),
        key: Key::from(UserKey { user_id: 789 }),
    });
    assert_eq!(
        text(&request),
        "{\"type\":\"GetItem\",\"table_id\":\"7573657273202020\",\"key\":\"0000031500000000\"}"
    );
}

#[test]
fn put_item_request_text() {
    let request = Request::PutItem(PutItemInput {
        table_id: table_users(),
        item: Item { key: Key::from(UserKey { user_id: 789 }), value: "Alice".to_string() },
    });
    assert_eq!(
        text(&request),
        "{\"type\":\"PutItem\",\"table_id\":\"7573657273202020\",\"item\":{\"key\":\"0000031500000000\",\"value\":\"Alice\"}}"
    );
}

#[test]
fn put_item_value_is_escaped() {
    let request = Request::PutItem(PutItemInput {
        table_id: table_users(),
        item: Item { key: Key([0; 8]), value: "a\"b\nc".to_string() },
    });
    let t = text(&request);
    assert!(t.ends_with(",\"value\":\"a\\\"b\\nc\"}}"));
    assert!(!t.contains('\n'));
}

#[test]
fn scan_item_request_text() {
    let start = Key::from(TweetKey { user_id: 1, timestamp: 2 });
    let request = Request::ScanItem(ScanItemInput {
        table_id: table_tweets(),
        start: Some(start),
        backward: true,
        limit: 25,
    });
    assert_eq!(
        text(&request),
        "{\"type\":\"ScanItem\",\"table_id\":\"7477656574732020\",\"start\":\"0000000100000002\",\"backward\":true,\"limit\":25}"
    );
}

#[test]
fn scan_item_request_text_without_start() {
    let request = Request::ScanItem(ScanItemInput {
        table_id: table_tweets(),
        start: None,
        backward: false,
        limit: 0,
    });
    assert_eq!(
        text(&request),
        "{\"type\":\"ScanItem\",\"table_id\":\"7477656574732020\",\"start\":null,\"backward\":false,\"limit\":0}"
    );
}
