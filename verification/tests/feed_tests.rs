use interprether::feed::{apply_limit, flatten_batches, query_range, TransactionsQueryParams};
use interprether::timefmt::{human_time, iso_time};
use interprether::transaction::Transaction;

fn record(hash: &str, timestamp: u64) -> Transaction {
    Transaction {
        hash: hash.to_string(),
        message: "m".to_string(),
        timestamp,
        from: None,
        to: None,
    }
}

#[test]
fn query_range_with_a_cursor_starts_just_past_it() {
    let params = TransactionsQueryParams { after: Some(500), limit: None };
    assert_eq!(query_range(&params, 1_000_000), (501, 1_000_000));
}

#[test]
fn query_range_without_a_cursor_covers_the_retention_window() {
    let params = TransactionsQueryParams { after: None, limit: None };
    assert_eq!(query_range(&params, 1_000_000), (1_000_000 - 86400, 1_000_000));
}

#[test]
fn flatten_batches_keeps_store_order() {
    let batches = vec![
        vec![record("a", 30), record("b", 20)],
        vec![],
        vec![record("c", 10)],
    ];
    let flat = flatten_batches(&batches);
    let hashes: Vec<&str> = flat.iter().map(|t| t.hash.as_str()).collect();
    assert_eq!(hashes, vec!["a", "b", "c"]);
}

#[test]
fn apply_limit_truncates_to_the_requested_count() {
    let txs = vec![record("a", 30), record("b", 20), record("c", 10)];
    let limited = apply_limit(txs, Some(2));
    let hashes: Vec<&str> = limited.iter().map(|t| t.hash.as_str()).collect();
    assert_eq!(hashes, vec!["a", "b"]);
}

#[test]
fn apply_limit_without_a_limit_returns_everything() {
    let txs = vec![record("a", 30), record("b", 20)];
    assert_eq!(apply_limit(txs, None).len(), 2);
}

#[test]
fn new_transactions_spell_the_hash_in_hex() {
    let tx = Transaction::new(vec![0xab, 0x01, 0x5f], "note".to_string(), 7);
    assert_eq!(tx.hash, "0xab015f");
    assert_eq!(tx.message, "note");
    assert_eq!(tx.timestamp, 7);
    assert!(tx.from.is_none());
    assert!(tx.to.is_none());
}

#[test]
fn human_time_spells_a_minute_old_record() {
    assert_eq!(human_time(100, 160).unwrap(), "a minute ago");
    assert_eq!(human_time(160, 160).unwrap(), "now");
}

#[test]
fn iso_time_spells_the_epoch_in_rfc2822() {
    assert_eq!(iso_time(0).unwrap(), "Thu, 1 Jan 1970 00:00:00 +0000");
    assert_eq!(iso_time(253_402_300_800), None);
}
