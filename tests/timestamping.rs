use timestamping::api::{block_height, get_timestamp, get_timestamps, post_transaction, ApiError};
use timestamping::parse::{hex_digit, parse_height, public_key_from_hex};
use timestamping::schema::{Storage, TimestampingSchema};
use timestamping::service::{TimestampingService, SERVICE_ID};
use timestamping::store::{PublicKey, Timestamp, TimestampMap};
use timestamping::transactions::{
    apply, seconds_to_u32, TimestampingTransactions, TxCreateTimestamp, TxOutcome,
};

fn key(b: u8) -> PublicKey {
    PublicKey::new([b; 32])
}

fn tx(k: &PublicKey, name: &str) -> TimestampingTransactions {
    TimestampingTransactions::CreateTimestamp(TxCreateTimestamp::new(k, name))
}

fn hex_of(k: &PublicKey) -> String {
    k.bytes.iter().map(|b| format!("{:02x}", b)).collect()
}

/// Applies one transaction in its own block and commits it.
fn commit(storage: &mut Storage, t: &TimestampingTransactions, valid: bool, now: u32) -> TxOutcome {
    let mut fork = storage.fork();
    let outcome = apply(&mut fork, t, valid, now);
    storage.merge(fork);
    outcome
}

fn read(storage: &Storage, k: &PublicKey) -> Option<Timestamp> {
    get_timestamp(storage, &hex_of(k)).ok().unwrap()
}

#[test]
fn first_write_wins_in_either_order() {
    let a = key(7);
    for (first, second) in [("left", "right"), ("right", "left")] {
        let mut storage = Storage::new();
        assert_eq!(commit(&mut storage, &tx(&a, first), true, 100), TxOutcome::Created);
        assert_eq!(commit(&mut storage, &tx(&a, second), true, 200), TxOutcome::AlreadyRecorded);
        let all = get_timestamps(&storage);
        assert_eq!(all.len(), 1);
        assert_eq!(all[0].name(), first);
        assert_eq!(all[0].time(), 100);
    }
}

#[test]
fn write_once_after_many_transactions() {
    let a = key(1);
    let mut storage = Storage::new();
    commit(&mut storage, &tx(&a, "first"), true, 10);
    for (i, valid) in [true, false, true, false, false, true].iter().enumerate() {
        let outcome = commit(&mut storage, &tx(&a, &format!("other{}", i)), *valid, 20 + i as u32);
        let expected = if *valid { TxOutcome::AlreadyRecorded } else { TxOutcome::Rejected };
        assert_eq!(outcome, expected);
    }
    let t = read(&storage, &a).unwrap();
    assert_eq!(t.name(), "first");
    assert_eq!(t.time(), 10);
    assert_eq!(get_timestamps(&storage).len(), 1);
}

#[test]
fn invalid_signature_never_creates_a_record() {
    let a = key(2);
    let mut storage = Storage::new();
    for n in 0..5u32 {
        assert_eq!(commit(&mut storage, &tx(&a, "forged"), false, n), TxOutcome::Rejected);
    }
    assert!(read(&storage, &a).is_none());
    assert!(get_timestamps(&storage).is_empty());
}

#[test]
fn snapshot_does_not_see_later_commit() {
    let a = key(3);
    let mut storage = Storage::new();
    let before = storage.snapshot();
    commit(&mut storage, &tx(&a, "late"), true, 5);
    assert!(before.timestamp(&a).is_none());
    assert_eq!(before.timestamps().len(), 0);
    assert_eq!(storage.snapshot().timestamp(&a).unwrap().name(), "late");
}

#[test]
fn fork_is_invisible_until_merged() {
    let a = key(4);
    let mut storage = Storage::new();
    let mut fork = storage.fork();
    apply(&mut fork, &tx(&a, "staged"), true, 9);
    assert!(read(&storage, &a).is_none());
    assert!(fork.timestamp(&a).is_some());
    storage.merge(fork);
    assert_eq!(read(&storage, &a).unwrap().name(), "staged");
}

#[test]
fn list_and_get_round_trip() {
    let mut storage = Storage::new();
    let n: u8 = 20;
    for i in 0..n {
        commit(&mut storage, &tx(&key(i), &format!("label{}", i)), true, 1000 + i as u32);
    }
    let all = get_timestamps(&storage);
    assert_eq!(all.len(), n as usize);
    for i in 0..n {
        let t = read(&storage, &key(i)).unwrap();
        assert_eq!(t.name(), format!("label{}", i));
        assert_eq!(t.time(), 1000 + i as u32);
        assert!(t.pub_key().same_as(&key(i)));
    }
}

#[test]
fn concrete_scenario() {
    let a = key(0xaa);
    let b = key(0xbb);
    let mut storage = Storage::new();
    commit(&mut storage, &tx(&a, "doc1"), true, 1_500_000_000);
    let first = read(&storage, &a).unwrap();
    assert!(first.pub_key().same_as(&a));
    assert_eq!(first.name(), "doc1");
    assert_eq!(first.time(), 1_500_000_000);

    commit(&mut storage, &tx(&a, "doc2"), true, 1_500_000_100);
    let again = read(&storage, &a).unwrap();
    assert_eq!(again.name(), "doc1");
    assert_eq!(again.time(), 1_500_000_000);

    let unknown = get_timestamp(&storage, &hex_of(&b));
    assert!(matches!(unknown, Ok(None)));

    assert_eq!(block_height("999999").ok(), Some(999999));
}

#[test]
fn malformed_key_is_bad_request() {
    let storage = Storage::new();
    assert!(matches!(get_timestamp(&storage, "zz"), Err(ApiError::BadRequest(_))));
    let mut bad = "0".repeat(63);
    bad.push('g');
    assert!(matches!(get_timestamp(&storage, &bad), Err(ApiError::BadRequest(_))));
    let long = "0".repeat(66);
    assert!(matches!(get_timestamp(&storage, &long), Err(ApiError::BadRequest(_))));
}

#[test]
fn hex_keys_decode_in_either_case() {
    let mut text = String::from("00ff7Fa0");
    text.push_str(&"01".repeat(28));
    let k = public_key_from_hex(&text).unwrap();
    assert_eq!(&k.bytes[..4], &[0x00, 0xff, 0x7f, 0xa0]);
    assert_eq!(k.bytes[31], 0x01);
    assert!(public_key_from_hex("").is_none());
    assert_eq!(hex_digit(b'9'), Some(9));
    assert_eq!(hex_digit(b'a'), Some(10));
    assert_eq!(hex_digit(b'F'), Some(15));
    assert_eq!(hex_digit(b'g'), None);
}

#[test]
fn heights_parse_as_decimal_u64() {
    assert_eq!(parse_height("0"), Some(0));
    assert_eq!(parse_height("+42"), Some(42));
    assert_eq!(parse_height("18446744073709551615"), Some(u64::MAX));
    assert_eq!(parse_height("18446744073709551616"), None);
    assert_eq!(parse_height("99999999999999999999"), None);
    assert_eq!(parse_height(""), None);
    assert_eq!(parse_height("+"), None);
    assert_eq!(parse_height("-1"), None);
    assert_eq!(parse_height("12a"), None);
    assert!(matches!(block_height("abc"), Err(ApiError::BadRequest(_))));
}

#[test]
fn empty_or_unparsable_body_is_bad_request() {
    match post_transaction(Ok(None)) {
        Err(ApiError::BadRequest(m)) => assert_eq!(m, "Empty request body"),
        _ => panic!("expected a bad request"),
    }
    match post_transaction(Err("missing field `name`".to_string())) {
        Err(ApiError::BadRequest(m)) => assert_eq!(m, "missing field `name`"),
        _ => panic!("expected a bad request"),
    }
    let a = key(5);
    match post_transaction(Ok(Some(tx(&a, "x")))) {
        Ok(TimestampingTransactions::CreateTimestamp(t)) => assert_eq!(t.name(), "x"),
        _ => panic!("expected the transaction"),
    }
}

#[test]
fn clock_seconds_saturate() {
    assert_eq!(seconds_to_u32(-5), 0);
    assert_eq!(seconds_to_u32(0), 0);
    assert_eq!(seconds_to_u32(1_700_000_000), 1_700_000_000);
    assert_eq!(seconds_to_u32(u32::MAX as i64 + 1), u32::MAX);
}

#[test]
fn execute_stamps_with_wall_clock() {
    let a = key(6);
    let mut schema = TimestampingSchema::new(TimestampMap::new());
    TxCreateTimestamp::new(&a, "now").execute(&mut schema);
    let t = schema.timestamp(&a).unwrap();
    assert_eq!(t.name(), "now");
    assert!(t.time() > 1_500_000_000);
}

#[test]
fn put_overwrites_unconditionally() {
    let a = key(8);
    let mut map = TimestampMap::new();
    map.put(&a, Timestamp::new(&a, "one", 1));
    map.put(&a, Timestamp::new(&a, "two", 2));
    assert_eq!(map.len(), 1);
    assert_eq!(map.get(&a).unwrap().name(), "two");
    assert!(map.contains(&a));
    assert!(!map.contains(&key(9)));
}

#[test]
fn service_descriptor() {
    let s = TimestampingService;
    assert_eq!(s.service_name(), "timestamping");
    assert_eq!(s.service_id(), SERVICE_ID);
    assert_eq!(SERVICE_ID, 1);
    assert!(s.state_hash().is_empty());
}
