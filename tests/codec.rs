use kvclient::db::{table_follows, table_tweets, table_users, FollowKey, TweetKey, UserKey};
use kvclient::query::{decode_key_text, encode_key_text, Key};

#[test]
fn user_key_round_trip() {
    for u in [0u32, 1, 789, 0x0102_0304, u32::MAX] {
        let key = Key::from(UserKey { user_id: u });
        assert_eq!(UserKey::from(key).user_id, u);
    }
}

#[test]
fn user_key_layout() {
    let key = Key::from(UserKey { user_id: 0x0102_0304 });
    assert_eq!(key.0, [1, 2, 3, 4, 0, 0, 0, 0]);
}

#[test]
fn user_key_ignores_low_bytes() {
    let key = Key([0, 0, 3, 21, 9, 9, 9, 9]);
    assert_eq!(UserKey::from(key).user_id, 789);
}

#[test]
fn tweet_key_round_trip() {
    for (u, t) in [(0u32, 0u32), (789, 1_600_000_000), (u32::MAX, 1), (1, u32::MAX)] {
        let back = TweetKey::from(Key::from(TweetKey { user_id: u, timestamp: t }));
        assert_eq!(back, TweetKey { user_id: u, timestamp: t });
    }
}

#[test]
fn follow_key_round_trip() {
    for (s, d) in [(0u32, 0u32), (5, 7), (u32::MAX, u32::MAX), (0xDEAD_BEEF, 0x0BAD_F00D)] {
        let back = FollowKey::from(Key::from(FollowKey { source_id: s, destination_id: d }));
        assert_eq!(back, FollowKey { source_id: s, destination_id: d });
    }
}

#[test]
fn follow_key_layout() {
    let key = Key::from(FollowKey { source_id: 0x0A0B_0C0D, destination_id: 0x0102_0304 });
    assert_eq!(key.0, [10, 11, 12, 13, 1, 2, 3, 4]);
}

#[test]
fn tweet_key_order_follows_pairs() {
    let pairs = [(0u32, 5u32), (0, 256), (1, 0), (255, 0), (256, 0), (256, 1), (u32::MAX, 0)];
    for w in pairs.windows(2) {
        let a = Key::from(TweetKey { user_id: w[0].0, timestamp: w[0].1 });
        let b = Key::from(TweetKey { user_id: w[1].0, timestamp: w[1].1 });
        assert!(a.0 < b.0);
    }
}

#[test]
fn key_text_is_upper_hex() {
    let key = Key([0x00, 0xab, 0xcd, 0xef, 0x12, 0x9f, 0xff, 0x01]);
    assert_eq!(encode_key_text(&key), "00ABCDEF129FFF01");
}

#[test]
fn key_text_round_trip() {
    let key = Key([0xde, 0xad, 0xbe, 0xef, 0, 1, 2, 3]);
    let text = encode_key_text(&key);
    assert_eq!(text.len(), 16);
    assert!(text.chars().all(|c| c.is_ascii_digit() || ('A'..='F').contains(&c)));
    assert!(decode_key_text(&text).unwrap() == key);
}

#[test]
fn key_text_accepts_mixed_case() {
    let key = decode_key_text("DeAdBeEf00010203").unwrap();
    assert_eq!(key.0, [0xde, 0xad, 0xbe, 0xef, 0, 1, 2, 3]);
}

#[test]
fn key_text_rejects_wrong_length() {
    assert!(decode_key_text("").is_err());
    assert!(decode_key_text("000003150000000").is_err());
    assert!(decode_key_text("00000315000000000").is_err());
    assert!(decode_key_text("000003150000000000").is_err());
}

#[test]
fn key_text_rejects_non_hex() {
    assert!(decode_key_text("000003150000000g").is_err());
    assert!(decode_key_text("00000315 0000000").is_err());
    assert!(decode_key_text("00000315000000é").is_err());
}

#[test]
fn table_ids_are_padded_names() {
    assert_eq!(&table_users().0, b"users   ");
    assert_eq!(&table_tweets().0, b"tweets  ");
    assert_eq!(&table_follows().0, b"follows ");
}

#[test]
fn users_table_and_user_key_text() {
    assert_eq!(encode_key_text(&table_users()), "7573657273202020");
    let key = Key::from(UserKey { user_id: 789 });
    assert_eq!(encode_key_text(&key), "0000031500000000");
}
