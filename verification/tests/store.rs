use neoabzu::vector::error::VectorError;
use neoabzu::vector::record::Record;
use neoabzu::vector::store::{collect_entries, entry_key, ENTRIES};

fn record(text: &str) -> Record {
    Record::from_text(text.to_string())
}

#[test]
fn entries_live_in_one_named_collection() {
    assert_eq!(ENTRIES, "entries");
}

#[test]
fn entry_keys_are_big_endian_positions() {
    assert_eq!(entry_key(0), [0, 0, 0, 0, 0, 0, 0, 0]);
    assert_eq!(entry_key(1), [0, 0, 0, 0, 0, 0, 0, 1]);
    assert_eq!(entry_key(255), [0, 0, 0, 0, 0, 0, 0, 255]);
    assert_eq!(entry_key(256), [0, 0, 0, 0, 0, 0, 1, 0]);
    assert_eq!(entry_key(0x0102_0304_0506_0708), [1, 2, 3, 4, 5, 6, 7, 8]);
    assert_eq!(entry_key(u64::MAX), [255; 8]);
}

#[test]
fn entry_keys_agree_with_the_standard_encoding() {
    let mut position: u64 = 1;
    for _ in 0..200 {
        assert_eq!(entry_key(position), position.to_be_bytes());
        position = position.wrapping_mul(6364136223846793005).wrapping_add(1442695040888963407);
    }
}

#[test]
fn entry_keys_order_as_positions_do() {
    let positions = [0u64, 1, 2, 255, 256, 257, 65535, 65536, 1 << 32, (1 << 56) - 1, 1 << 56, u64::MAX];
    for pair in positions.windows(2) {
        assert!(entry_key(pair[0]) < entry_key(pair[1]));
    }
}

#[test]
fn collect_entries_keeps_key_order() {
    let entries = vec![Ok(record("c")), Ok(record("a")), Ok(record("b"))];
    assert_eq!(collect_entries(entries), Ok(vec![record("c"), record("a"), record("b")]));
    assert_eq!(collect_entries(Vec::new()), Ok(Vec::new()));
}

#[test]
fn collect_entries_fails_on_the_first_corrupt_entry() {
    let entries = vec![
        Ok(record("a")),
        Err(VectorError::Serialization("first".to_string())),
        Ok(record("b")),
        Err(VectorError::Storage("second".to_string())),
    ];
    assert_eq!(collect_entries(entries), Err(VectorError::Serialization("first".to_string())));
    let entries = vec![Err(VectorError::Storage("only".to_string()))];
    assert_eq!(collect_entries(entries), Err(VectorError::Storage("only".to_string())));
}
