use rust_qts::rest::{
    binance_orderbook_params, binance_symbol_params,
    bybit_account_info_params, bybit_open_orders_params,
    bybit_orderbook_params, bybit_positions_params, bybit_tickers_params,
};
use rust_qts::signing::RequestError;
use rust_qts::types::{BinanceTickerItem, BinanceTickerResponse, BinanceTickersResponse};

fn pairs(v: &[(&str, &str)]) -> Vec<(String, String)> {
    v.iter().map(|(k, x)| (k.to_string(), x.to_string())).collect()
}

#[test]
fn account_params() {
    assert_eq!(bybit_account_info_params(None, None), pairs(&[("accountType", "UNIFIED")]));
    assert_eq!(
        bybit_account_info_params(Some("CONTRACT"), Some("BTC")),
        pairs(&[("accountType", "CONTRACT"), ("coin", "BTC")])
    );
}

#[test]
fn positions_need_symbol_or_settle_coin() {
    assert_eq!(
        bybit_positions_params("linear", None, Some("BTC"), None, Some(20), None),
        Err(RequestError::MissingPositionFilter)
    );
    assert_eq!(
        bybit_positions_params("linear", None, None, Some("USDT"), None, None).unwrap(),
        pairs(&[("category", "linear"), ("settleCoin", "USDT")])
    );
    assert_eq!(
        bybit_positions_params("linear", Some("BTCUSDT"), Some("BTC"), None, Some(-3), Some("c1")).unwrap(),
        pairs(&[
            ("category", "linear"),
            ("symbol", "BTCUSDT"),
            ("baseCoin", "BTC"),
            ("limit", "-3"),
            ("cursor", "c1"),
        ])
    );
}

#[test]
fn open_orders_rules_by_category() {
    let q = |c: &str, s: Option<&str>, b: Option<&str>, st: Option<&str>| {
        bybit_open_orders_params(c, s, b, st, None, None, None, None, None, None)
    };
    assert_eq!(q("linear", None, None, None), Err(RequestError::MissingOrderFilter));
    assert_eq!(q("inverse", None, None, None), Err(RequestError::MissingOrderFilter));
    assert!(q("inverse", None, None, Some("USDT")).is_ok());
    assert_eq!(q("spot", None, None, Some("USDT")), Err(RequestError::MissingOrderFilter));
    assert!(q("spot", None, Some("BTC"), None).is_ok());
    assert!(q("option", None, None, None).is_ok());
    assert_eq!(q("futures", Some("BTCUSDT"), None, None), Err(RequestError::InvalidCategory));
    assert_eq!(
        bybit_open_orders_params(
            "linear",
            Some("TAUSDT"),
            None,
            None,
            Some("id"),
            Some("link"),
            Some(0),
            Some("Order"),
            Some(50),
            Some("cur"),
        )
        .unwrap(),
        pairs(&[
            ("category", "linear"),
            ("symbol", "TAUSDT"),
            ("orderId", "id"),
            ("orderLinkId", "link"),
            ("openOnly", "0"),
            ("orderFilter", "Order"),
            ("limit", "50"),
            ("cursor", "cur"),
        ])
    );
}

#[test]
fn public_market_params() {
    assert_eq!(
        bybit_orderbook_params("linear", "BTCUSDT"),
        pairs(&[("category", "linear"), ("symbol", "BTCUSDT")])
    );
    assert_eq!(
        bybit_tickers_params("option", None, Some("BTC"), Some("25DEC22")),
        pairs(&[("category", "option"), ("baseCoin", "BTC"), ("expDate", "25DEC22")])
    );
    assert_eq!(binance_symbol_params(None), pairs(&[]));
    assert_eq!(binance_symbol_params(Some("ETHUSDT")), pairs(&[("symbol", "ETHUSDT")]));
}

#[test]
fn binance_depth_limits() {
    assert_eq!(
        binance_orderbook_params("BTCUSDT", Some(500)).unwrap(),
        pairs(&[("symbol", "BTCUSDT"), ("limit", "500")])
    );
    assert_eq!(binance_orderbook_params("BTCUSDT", None).unwrap(), pairs(&[("symbol", "BTCUSDT")]));
    for bad in [0u32, 1, 7, 200, 1001] {
        assert_eq!(binance_orderbook_params("BTCUSDT", Some(bad)), Err(RequestError::InvalidDepthLimit));
    }
}

fn ticker(symbol: &str, count: u64) -> BinanceTickerResponse {
    BinanceTickerResponse {
        symbol: symbol.to_string(),
        priceChange: "1".to_string(),
        priceChangePercent: "2".to_string(),
        weightedAvgPrice: "3".to_string(),
        lastPrice: "4".to_string(),
        lastQty: "5".to_string(),
        openPrice: "6".to_string(),
        highPrice: "7".to_string(),
        lowPrice: "8".to_string(),
        volume: "9".to_string(),
        quoteVolume: "10".to_string(),
        openTime: 11,
        closeTime: 12,
        firstId: 13,
        lastId: 14,
        count,
    }
}

#[test]
fn ticker_list_keeps_order_and_fields() {
    let list = BinanceTickersResponse::from_tickers(&vec![ticker("A", 1), ticker("B", 2)]);
    assert_eq!(list.list.len(), 2);
    assert_eq!(list.list[0].symbol, "A");
    assert_eq!(list.list[1].symbol, "B");
    assert_eq!(list.list[1].count, 2);
    let one: BinanceTickerItem = BinanceTickerItem::from_ticker(&ticker("C", 3));
    assert_eq!(
        (one.lastPrice.as_str(), one.quoteVolume.as_str(), one.openTime, one.lastId),
        ("4", "10", 11, 14)
    );
}
