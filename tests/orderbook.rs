use rust_qts::decimal::{parse_units_bytes, parse_units_text, MAX_UNITS, UNITS_PER_WHOLE};
use rust_qts::messages::{BybitWebSocketOrderbookData, BybitWebSocketOrderbookResponse};
use rust_qts::orderbook::{LocalOrderbook, OrderbookLevel};

const U: u128 = UNITS_PER_WHOLE;

fn levels(v: &[(&str, &str)]) -> Vec<[String; 2]> {
    v.iter().map(|(p, s)| [p.to_string(), s.to_string()]).collect()
}

fn data(b: &[(&str, &str)], a: &[(&str, &str)], u: u64, seq: u64) -> BybitWebSocketOrderbookData {
    BybitWebSocketOrderbookData {
        s: "BTCUSDT".to_string(),
        b: levels(b),
        a: levels(a),
        u,
        seq,
    }
}

fn lvl(price: u128, size: u128) -> OrderbookLevel {
    OrderbookLevel { price: price * U, size: size * U }
}

fn snapshot_book() -> LocalOrderbook {
    let mut book = LocalOrderbook::new("BTCUSDT".to_string());
    book.apply_snapshot(&data(&[("100", "2")], &[("101", "3")], 1, 1));
    book
}

fn assert_sorted(book: &LocalOrderbook) {
    for w in book.bids.windows(2) {
        assert!(w[0].price > w[1].price);
    }
    for w in book.asks.windows(2) {
        assert!(w[0].price < w[1].price);
    }
    for l in book.bids.iter().chain(book.asks.iter()) {
        assert!(l.size > 0);
    }
}

#[test]
fn new_book_is_empty_and_stale() {
    let book = LocalOrderbook::new("ETHUSDT".to_string());
    assert_eq!(book.symbol, "ETHUSDT");
    assert!(book.bids.is_empty() && book.asks.is_empty());
    assert!(book.stale);
    assert!(book.check_sequence);
    assert_eq!(book.best_bid(), None);
    assert_eq!(book.spread(), None);
}

#[test]
fn snapshot_sets_best_levels_and_spread() {
    let book = snapshot_book();
    assert_eq!(book.best_bid(), Some(&lvl(100, 2)));
    assert_eq!(book.best_ask(), Some(&lvl(101, 3)));
    assert_eq!(book.spread(), Some(U as i128));
    assert_eq!(book.last_update_id, 1);
    assert_eq!(book.last_sequence, 1);
    assert_eq!(book.last_timestamp, 1);
    assert!(!book.stale);
}

#[test]
fn zero_size_delta_removes_best_bid() {
    let mut book = snapshot_book();
    book.apply_delta(&data(&[("100", "0")], &[], 2, 2));
    assert_eq!(book.best_bid(), None);
    assert_eq!(book.asks, vec![lvl(101, 3)]);
    assert_eq!(book.spread(), None);
    assert_eq!(book.last_sequence, 2);
    assert!(!book.stale);
}

#[test]
fn delta_inserts_lower_bid_in_order() {
    let mut book = snapshot_book();
    book.apply_delta(&data(&[("99", "5")], &[], 2, 2));
    assert_eq!(book.bids, vec![lvl(100, 2), lvl(99, 5)]);
    assert_eq!(book.best_bid(), Some(&lvl(100, 2)));
    assert_eq!(book.asks, vec![lvl(101, 3)]);
}

#[test]
fn sequence_gap_marks_book_stale() {
    let mut book = snapshot_book();
    book.apply_delta(&data(&[("99", "5")], &[], 7, 5));
    assert!(book.stale);
    assert_eq!(book.bids, vec![lvl(100, 2)]);
    assert_eq!(book.last_sequence, 1);
    assert_eq!(book.last_update_id, 1);
    // once stale, even the next sequence number is refused
    book.apply_delta(&data(&[("98", "1")], &[], 2, 2));
    assert!(book.stale);
    assert_eq!(book.bids, vec![lvl(100, 2)]);
    // a fresh snapshot resynchronises
    book.apply_snapshot(&data(&[("97", "1")], &[("98", "1")], 9, 9));
    assert!(!book.stale);
    book.apply_delta(&data(&[("96", "4")], &[], 10, 10));
    assert!(!book.stale);
    assert_eq!(book.bids, vec![lvl(97, 1), lvl(96, 4)]);
}

#[test]
fn delta_before_first_snapshot_is_refused() {
    let mut book = LocalOrderbook::new("BTCUSDT".to_string());
    book.apply_delta(&data(&[("99", "5")], &[], 1, 1));
    assert!(book.bids.is_empty());
    assert!(book.stale);
}

#[test]
fn guard_off_applies_out_of_sequence_delta() {
    let mut book = snapshot_book();
    book.check_sequence = false;
    book.apply_delta(&data(&[("99", "5")], &[], 7, 5));
    assert_eq!(book.bids, vec![lvl(100, 2), lvl(99, 5)]);
    assert_eq!(book.last_sequence, 5);
    assert!(!book.stale);
}

#[test]
fn deltas_keep_sides_strictly_ordered() {
    let mut book = LocalOrderbook::new("BTCUSDT".to_string());
    book.apply_snapshot(&data(
        &[("100", "1"), ("98", "1"), ("99", "2")],
        &[("103", "1"), ("101", "1"), ("102", "2")],
        1,
        1,
    ));
    assert_sorted(&book);
    let steps: Vec<(Vec<(&str, &str)>, Vec<(&str, &str)>)> = vec![
        (vec![("97.5", "3"), ("100", "0"), ("99.5", "1")], vec![("101.5", "2")]),
        (vec![("98", "7"), ("96", "0")], vec![("101", "0"), ("104", "1"), ("100.5", "1")]),
        (vec![("99.75", "0.25")], vec![("102", "0"), ("102", "4")]),
    ];
    let mut seq = 2;
    for (b, a) in steps.iter() {
        book.apply_delta(&data(b, a, seq, seq));
        assert_sorted(&book);
        seq += 1;
    }
    let bid_prices: Vec<u128> = book.bids.iter().map(|l| l.price).collect();
    assert_eq!(
        bid_prices,
        vec![U * 9975 / 100, U * 995 / 10, 99 * U, 98 * U, U * 975 / 10]
    );
    let ask_prices: Vec<u128> = book.asks.iter().map(|l| l.price).collect();
    assert_eq!(ask_prices, vec![U * 1005 / 10, U * 1015 / 10, 102 * U, 103 * U, 104 * U]);
    assert_eq!(book.bids[3].size, 7 * U);
    assert_eq!(book.asks[2].size, 4 * U);
}

#[test]
fn snapshot_replaces_prior_state() {
    let snap = data(&[("10", "1"), ("9", "2")], &[("11", "1")], 40, 40);
    let mut a = LocalOrderbook::new("X".to_string());
    let mut b = snapshot_book();
    b.apply_delta(&data(&[("99", "5")], &[("105", "1")], 2, 2));
    b.apply_delta(&data(&[], &[], 9, 9));
    a.apply_snapshot(&snap);
    b.apply_snapshot(&snap);
    assert_eq!(a.bids, b.bids);
    assert_eq!(a.asks, b.asks);
    assert_eq!((a.last_update_id, a.last_sequence, a.stale), (b.last_update_id, b.last_sequence, b.stale));
    assert_eq!(a.bids, vec![lvl(10, 1), lvl(9, 2)]);
}

#[test]
fn zero_size_for_absent_price_changes_nothing() {
    let mut book = snapshot_book();
    let before = (book.bids.clone(), book.asks.clone());
    book.apply_delta(&data(&[("42", "0")], &[("43", "0.000")], 2, 2));
    assert_eq!((book.bids.clone(), book.asks.clone()), before);
    book.apply_delta(&data(&[("100", "0"), ("100", "0")], &[], 3, 3));
    assert!(book.bids.is_empty());
}

#[test]
fn new_price_inserts_exactly_one_level() {
    let mut book = snapshot_book();
    book.apply_delta(&data(&[], &[("100.5", "1")], 2, 2));
    assert_eq!(book.asks.len(), 2);
    assert_eq!(book.asks[0], OrderbookLevel { price: U * 1005 / 10, size: U });
    book.apply_delta(&data(&[], &[("100.5", "6")], 3, 3));
    assert_eq!(book.asks.len(), 2);
    assert_eq!(book.asks[0].size, 6 * U);
}

#[test]
fn crossed_book_is_flagged() {
    let mut book = LocalOrderbook::new("BTCUSDT".to_string());
    book.apply_snapshot(&data(&[("101", "1")], &[("100", "1")], 1, 1));
    assert!(book.is_crossed());
    assert!(book.stale);
    assert_eq!(book.spread(), Some(-(U as i128)));
    let mut ok = snapshot_book();
    ok.apply_delta(&data(&[("101.5", "1")], &[], 2, 2));
    assert!(ok.is_crossed());
    assert!(ok.stale);
}

#[test]
fn snapshot_drops_unreadable_and_empty_entries() {
    let mut book = LocalOrderbook::new("BTCUSDT".to_string());
    book.apply_snapshot(&data(
        &[("100", "0"), ("abc", "1"), ("99", "-1"), ("98", "1"), ("98", "2")],
        &[("1e3", "1"), ("101", "")],
        3,
        4,
    ));
    assert_eq!(book.bids, vec![lvl(98, 2)]);
    assert!(book.asks.is_empty());
    assert_eq!(book.last_update_id, 3);
    assert_eq!(book.last_sequence, 4);
}

#[test]
fn message_dispatch_by_type() {
    let mut book = LocalOrderbook::new("BTCUSDT".to_string());
    let msg = |t: &str, d: BybitWebSocketOrderbookData| BybitWebSocketOrderbookResponse {
        topic: "orderbook.1.BTCUSDT".to_string(),
        data_type: t.to_string(),
        ts: 0,
        data: d,
        cts: 0,
    };
    assert!(book.apply_message(&msg("snapshot", data(&[("100", "2")], &[("101", "3")], 1, 1))));
    assert!(book.apply_message(&msg("delta", data(&[("99", "5")], &[], 2, 2))));
    assert_eq!(book.bids, vec![lvl(100, 2), lvl(99, 5)]);
    assert!(!book.apply_message(&msg("other", data(&[("50", "5")], &[], 3, 3))));
    assert_eq!(book.bids.len(), 2);
    assert_eq!(book.last_sequence, 2);
}

#[test]
fn decimal_text_reads_as_units() {
    assert_eq!(parse_units_text(&"100".to_string()), Some(100 * U));
    assert_eq!(parse_units_text(&"0.5".to_string()), Some(U / 2));
    assert_eq!(parse_units_text(&".25".to_string()), Some(U / 4));
    assert_eq!(parse_units_text(&"7.".to_string()), Some(7 * U));
    assert_eq!(parse_units_text(&"0.000000000000000001".to_string()), Some(1));
    assert_eq!(parse_units_text(&"65432.10".to_string()), Some(6543210 * U / 100));
    assert_eq!(parse_units_text(&"0".to_string()), Some(0));
}

#[test]
fn decimal_text_rejections() {
    for bad in ["", ".", "1.2.3", "-1", "+1", "1e5", "abc", " 1", "0.0000000000000000001", "１"] {
        assert_eq!(parse_units_bytes(bad.as_bytes()), None, "{bad}");
    }
    let max_whole = (MAX_UNITS / U).to_string();
    assert_eq!(parse_units_text(&max_whole), Some((MAX_UNITS / U) * U));
    let too_big = (MAX_UNITS / U + 1).to_string();
    assert_eq!(parse_units_text(&too_big), None);
    assert_eq!(parse_units_bytes(b"170141183460469231731.687303715884105727"), Some(MAX_UNITS));
    assert_eq!(parse_units_bytes(b"170141183460469231731.687303715884105728"), None);
}

#[test]
fn resync_needed_when_a_message_makes_the_book_stale() {
    let mut book = snapshot_book();
    let before = book.stale;
    book.apply_delta(&data(&[("99", "5")], &[], 2, 2));
    assert!(!book.needs_resync(before));
    let before = book.stale;
    book.apply_delta(&data(&[("98", "5")], &[], 4, 4));
    assert!(book.needs_resync(before));
    let before = book.stale;
    book.apply_delta(&data(&[("97", "5")], &[], 5, 5));
    assert!(!book.needs_resync(before));
    assert!(book.stale);
}

#[test]
fn message_dispatch_sets_every_field() {
    let mut book = LocalOrderbook::new("BTCUSDT".to_string());
    let msg = |t: &str, d: BybitWebSocketOrderbookData| BybitWebSocketOrderbookResponse {
        topic: "orderbook.1.BTCUSDT".to_string(),
        data_type: t.to_string(),
        ts: 0,
        data: d,
        cts: 0,
    };
    book.apply_message(&msg("snapshot", data(&[("100", "2")], &[("101", "3")], 11, 1)));
    assert_eq!((book.last_update_id, book.last_sequence, book.last_timestamp), (11, 1, 11));
    book.apply_message(&msg("delta", data(&[], &[], 12, 2)));
    assert_eq!((book.last_update_id, book.last_sequence, book.last_timestamp), (12, 2, 12));
    assert_eq!(book.symbol, "BTCUSDT");
    assert!(!book.stale);
}
