use rust_qts::rest::{binance_signed_get, bybit_signed_get, request_url};
use rust_qts::signing::{
    binance_auth_headers, binance_canonical, binance_signed_params, bybit_auth_headers,
    bybit_body_canonical, bybit_canonical, sign, APIKey, RequestError,
};
use rust_qts::text::{int_to_text, query_string, text_eq};

fn pairs(v: &[(&str, &str)]) -> Vec<(String, String)> {
    v.iter().map(|(k, x)| (k.to_string(), x.to_string())).collect()
}

fn creds() -> APIKey {
    APIKey {
        api_name: "main".to_string(),
        api_key: "XXXX".to_string(),
        api_secret: "key".to_string(),
    }
}

#[test]
fn hmac_sha256_known_vector() {
    assert_eq!(
        sign("key", "The quick brown fox jumps over the lazy dog"),
        "f7bc83f430538424b13298e6aa6fb143ef4d59a14946175997479dbc2d1a3cd8"
    );
    let s = sign("secret", "");
    assert_eq!(s.len(), 64);
    assert!(s.chars().all(|c| c.is_ascii_hexdigit() && !c.is_ascii_uppercase()));
}

#[test]
fn integer_text() {
    assert_eq!(int_to_text(0), "0");
    assert_eq!(int_to_text(1658385579423), "1658385579423");
    assert_eq!(int_to_text(-42), "-42");
    assert_eq!(int_to_text(i64::MIN), "-9223372036854775808");
    assert_eq!(int_to_text(i64::MAX), "9223372036854775807");
}

#[test]
fn query_string_joins_pairs_in_order() {
    assert_eq!(query_string(&pairs(&[])), "");
    assert_eq!(query_string(&pairs(&[("a", "1")])), "a=1");
    assert_eq!(
        query_string(&pairs(&[("category", "linear"), ("symbol", "BTCUSDT"), ("limit", "5")])),
        "category=linear&symbol=BTCUSDT&limit=5"
    );
    assert!(text_eq("abc", "abc"));
    assert!(!text_eq("abc", "abd"));
    assert!(!text_eq("abc", "ab"));
}

#[test]
fn bybit_canonical_concatenates() {
    assert_eq!(
        bybit_canonical(1658385579423, "XXXX", "5000", "category=option"),
        "1658385579423XXXX5000category=option"
    );
    assert_eq!(bybit_body_canonical(1, "k", "5000", "{}"), "1k5000");
    assert_eq!(bybit_body_canonical(1, "k", "5000", "{\"a\":1}"), "1k5000{\"a\":1}");
    assert_eq!(bybit_body_canonical(1, "k", "5000", ""), "1k5000");
}

#[test]
fn empty_payload_canonical_strings_differ_by_exchange() {
    let a = binance_canonical(1700000000000, "5000", &Vec::new());
    let b = bybit_canonical(1700000000000, "XXXX", "5000", "");
    assert_eq!(a, "timestamp=1700000000000&recvWindow=5000");
    assert_eq!(b, "1700000000000XXXX5000");
    assert_ne!(a, b);
}

#[test]
fn binance_params_lead_with_timestamp() {
    let p = binance_signed_params(5, "5000", &pairs(&[("symbol", "BTCUSDT")]));
    assert_eq!(p, pairs(&[("timestamp", "5"), ("recvWindow", "5000"), ("symbol", "BTCUSDT")]));
}

#[test]
fn bybit_headers_in_order() {
    let h = bybit_auth_headers("abc", "XXXX", 17, "5000").unwrap();
    assert_eq!(
        h,
        pairs(&[
            ("Content-Type", "application/json"),
            ("X-BAPI-SIGN", "abc"),
            ("X-BAPI-API-KEY", "XXXX"),
            ("X-BAPI-TIMESTAMP", "17"),
            ("X-BAPI-RECV-WINDOW", "5000"),
        ])
    );
    assert_eq!(bybit_auth_headers("abc", "bad\nkey", 17, "5000"), Err(RequestError::InvalidHeaderValue));
    assert_eq!(bybit_auth_headers("abc", "k", 17, "50\u{7f}00"), Err(RequestError::InvalidHeaderValue));
    assert!(bybit_auth_headers("abc", "tab\tkey", 17, "5000").is_ok());
}

#[test]
fn binance_headers() {
    assert_eq!(
        binance_auth_headers("KEY").unwrap(),
        pairs(&[("X-MBX-APIKEY", "KEY"), ("Content-Type", "application/x-www-form-urlencoded")])
    );
    assert_eq!(binance_auth_headers("a\rb"), Err(RequestError::InvalidHeaderValue));
}

#[test]
fn bybit_signed_request() {
    let params = pairs(&[("category", "linear"), ("settleCoin", "USDT")]);
    let req = bybit_signed_get("https://api.bybit.com", "/v5/position/list", &params, &creds(), 100, "5000")
        .unwrap();
    assert_eq!(req.url, "https://api.bybit.com/v5/position/list?category=linear&settleCoin=USDT");
    let expected = sign("key", "100XXXX5000category=linear&settleCoin=USDT");
    assert_eq!(req.headers[1], ("X-BAPI-SIGN".to_string(), expected));
    assert!(!req.headers.iter().any(|(_, v)| v.contains("key") && v.len() == 3));
    let bare = bybit_signed_get("https://api.bybit.com", "/v5/account/info", &Vec::new(), &creds(), 100, "5000")
        .unwrap();
    assert_eq!(bare.url, "https://api.bybit.com/v5/account/info");
    assert_eq!(bare.headers[1].1, sign("key", "100XXXX5000"));
}

#[test]
fn binance_signed_request() {
    let req = binance_signed_get(
        "https://fapi.binance.com",
        "/fapi/v3/positionRisk",
        &pairs(&[("symbol", "BTCUSDT")]),
        &creds(),
        123,
        "5000",
    )
    .unwrap();
    let q = "timestamp=123&recvWindow=5000&symbol=BTCUSDT";
    assert_eq!(
        req.url,
        format!("https://fapi.binance.com/fapi/v3/positionRisk?{}&signature={}", q, sign("key", q))
    );
    assert_eq!(req.headers[0], ("X-MBX-APIKEY".to_string(), "XXXX".to_string()));
    let mut bad = creds();
    bad.api_key = "x\ny".to_string();
    assert!(matches!(
        binance_signed_get("b", "/p", &Vec::new(), &bad, 1, "5000"),
        Err(RequestError::InvalidHeaderValue)
    ));
}

#[test]
fn urls_with_and_without_query() {
    assert_eq!(request_url("https://h", "/p", &Vec::new()), "https://h/p");
    assert_eq!(request_url("https://h", "/p", &pairs(&[("a", "b")])), "https://h/p?a=b");
}
