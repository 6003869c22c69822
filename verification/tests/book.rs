use polywatcher::book::{watch_token_id, BookLevel, ChangeSide, Orderbook, PriceChange};
use polywatcher::clob::TokenId;

fn level(cents: i32, size: &str) -> BookLevel {
    BookLevel { cents, size: size.to_string() }
}

fn token(n: u64) -> TokenId {
    TokenId { w0: n, w1: 0, w2: 0, w3: 0 }
}

fn change(asset: u64, cents: i32, size: Option<&str>, side: ChangeSide) -> PriceChange {
    PriceChange { asset: token(asset), cents, size: size.map(|s| s.to_string()), side }
}

#[test]
fn snapshot_replaces_book_last_level_wins() {
    let mut b = Orderbook::new();
    b.replace_levels(&vec![level(10, "5")], &vec![level(90, "1")]);
    b.replace_levels(&vec![level(45, "100"), level(46, "7"), level(45, "200")], &vec![level(55, "3")]);
    assert_eq!(b.bid_size(45), "200");
    assert_eq!(b.bid_size(46), "7");
    assert_eq!(b.bid_size(10), "");
    assert_eq!(b.ask_size(55), "3");
    assert_eq!(b.ask_size(90), "");
    assert_eq!(b.bids.len(), 2);
    assert_eq!(b.asks.len(), 1);
}

#[test]
fn changes_for_other_tokens_are_ignored() {
    let mut b = Orderbook::new();
    b.replace_levels(&vec![level(45, "100")], &vec![]);
    let out = b.apply_price_changes(&token(1), &vec![change(2, 45, Some("0"), ChangeSide::Buy), change(2, 50, None, ChangeSide::Other)]);
    assert!(!out.changed);
    assert_eq!(out.last_trade, None);
    assert_eq!(b.bid_size(45), "100");
}

#[test]
fn buy_and_sell_changes_set_and_remove_levels() {
    let mut b = Orderbook::new();
    b.replace_levels(&vec![level(45, "100"), level(44, "9")], &vec![level(55, "3"), level(56, "4")]);
    let out = b.apply_price_changes(
        &token(7),
        &vec![
            change(7, 45, Some("0"), ChangeSide::Buy),
            change(7, 44, Some("12.5"), ChangeSide::Buy),
            change(7, 55, Some("0.0"), ChangeSide::Sell),
            change(7, 56, None, ChangeSide::Sell),
            change(7, 57, Some("0.00"), ChangeSide::Sell),
        ],
    );
    assert!(out.changed);
    assert_eq!(out.last_trade, None);
    assert_eq!(b.bid_size(45), "");
    assert_eq!(b.bid_size(44), "12.5");
    assert_eq!(b.ask_size(55), "");
    assert_eq!(b.ask_size(56), "");
    assert_eq!(b.ask_size(57), "0.00");
}

#[test]
fn trades_report_their_position_and_keep_the_book() {
    let mut b = Orderbook::new();
    b.replace_levels(&vec![level(45, "100")], &vec![level(55, "3")]);
    let out = b.apply_price_changes(
        &token(7),
        &vec![
            change(7, 50, Some("1"), ChangeSide::Other),
            change(8, 51, Some("1"), ChangeSide::Other),
            change(7, 52, Some("1"), ChangeSide::Other),
            change(9, 53, Some("1"), ChangeSide::Buy),
        ],
    );
    assert!(out.changed);
    assert_eq!(out.last_trade, Some(2));
    assert_eq!(b.bid_size(45), "100");
    assert_eq!(b.ask_size(55), "3");
    assert_eq!(b.bids.len(), 1);
    assert_eq!(b.asks.len(), 1);
}

#[test]
fn watched_token_id_errors() {
    assert_eq!(watch_token_id("42").unwrap(), token(42));
    let e = watch_token_id("forty-two").err().unwrap();
    assert!(e.starts_with("Invalid Token ID: "));
    assert!(e.len() > "Invalid Token ID: ".len());
}
