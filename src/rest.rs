//! REST requests of the two exchanges: the parameter lists of each endpoint,
//! with the rules on which parameters a query must carry, and the signed
//! requests built from them.
use vstd::prelude::*;

use crate::signing::{
    binance_auth_headers, binance_canonical_text, binance_headers_of, binance_signed_query,
    bybit_auth_headers, bybit_canonical, bybit_canonical_text, bybit_headers_of, header_text_ok,
    lemma_signature_header_ok, sign, signature_text, APIKey, RequestError,
};
use crate::text::{int_text, int_to_text, query_string, query_text, text_eq};

verus! {

/// A request ready to send: its full URL and its headers, in order.
pub struct SignedRequest {
    pub url: String,
    pub headers: Vec<(String, String)>,
}

/// One `name=value` parameter where a value is given, none otherwise.
pub open spec fn opt_param(name: Seq<char>, v: Option<&str>) -> Seq<(Seq<char>, Seq<char>)> {
    match v {
        Some(x) => seq![(name, x@)],
        None => Seq::empty(),
    }
}

/// One `name=value` parameter for an integer where one is given.
pub open spec fn opt_int_param(name: Seq<char>, v: Option<i32>) -> Seq<(Seq<char>, Seq<char>)> {
    match v {
        Some(x) => seq![(name, int_text(x as int))],
        None => Seq::empty(),
    }
}

/// A URL: base, path, and `?` with the query where there are parameters.
pub open spec fn url_text(base: Seq<char>, path: Seq<char>, ps: Seq<(Seq<char>, Seq<char>)>) -> Seq<
    char,
> {
    if ps.len() == 0 {
        base + path
    } else {
        base + path + seq!['?'] + query_text(ps)
    }
}

fn push_param(params: &mut Vec<(String, String)>, name: &str, v: Option<&str>)
    ensures
        final(params).deep_view() == old(params).deep_view() + opt_param(name@, v),
{
    let ghost prev = params.deep_view();
    match v {
        Some(x) => {
            params.push((String::from_str(name), String::from_str(x)));
            proof {
                assert(params.deep_view() =~= prev + opt_param(name@, v));
            }
        },
        None => {
            proof {
                assert(params.deep_view() =~= prev + opt_param(name@, v));
            }
        },
    }
}

fn push_int_param(params: &mut Vec<(String, String)>, name: &str, v: Option<i32>)
    ensures
        final(params).deep_view() == old(params).deep_view() + opt_int_param(name@, v),
{
    let ghost prev = params.deep_view();
    match v {
        Some(x) => {
            params.push((String::from_str(name), int_to_text(x as i64)));
            proof {
                assert(params.deep_view() =~= prev + opt_int_param(name@, v));
            }
        },
        None => {
            proof {
                assert(params.deep_view() =~= prev + opt_int_param(name@, v));
            }
        },
    }
}

fn first_param(name: &str, v: &str) -> (r: Vec<(String, String)>)
    ensures
        r.deep_view() == seq![(name@, v@)],
{
    let mut params: Vec<(String, String)> = Vec::new();
    params.push((String::from_str(name), String::from_str(v)));
    proof {
        assert(params.deep_view() =~= seq![(name@, v@)]);
    }
    params
}

/// The URL of a request: base, path and, where there are parameters, the query.
pub fn request_url(base_url: &str, path: &str, params: &Vec<(String, String)>) -> (r: String)
    ensures
        r@ == url_text(base_url@, path@, params.deep_view()),
{
    let mut url = String::from_str(base_url);
    url.append(path);
    if params.len() > 0 {
        url.append("?");
        let q = query_string(params);
        url.append(q.as_str());
        proof {
            reveal_strlit("?");
            assert(url@ =~= url_text(base_url@, path@, params.deep_view()));
        }
    } else {
        proof {
            assert(url@ =~= url_text(base_url@, path@, params.deep_view()));
        }
    }
    url
}

/// The signature that an exchange "Bybit" GET request with these parameters carries.
pub open spec fn bybit_get_signature(
    creds: APIKey,
    timestamp: int,
    recv_window: Seq<char>,
    ps: Seq<(Seq<char>, Seq<char>)>,
) -> Seq<char> {
    signature_text(
        creds.api_secret@,
        bybit_canonical_text(timestamp, creds.api_key@, recv_window, query_text(ps)),
    )
}

/// A signed GET request for exchange "Bybit": the query is signed behind the
/// timestamp, the key and the receive window, and the signature travels in
/// the headers. Fails when a header value cannot be carried.
pub fn bybit_signed_get(
    base_url: &str,
    path: &str,
    params: &Vec<(String, String)>,
    creds: &APIKey,
    timestamp: i64,
    recv_window: &str,
) -> (r: Result<SignedRequest, RequestError>)
    ensures
        r is Ok <==> (header_text_ok(creds.api_key@) && header_text_ok(recv_window@)),
        r matches Ok(req) ==> req.url@ == url_text(base_url@, path@, params.deep_view())
            && req.headers.deep_view() == bybit_headers_of(
            bybit_get_signature(*creds, timestamp as int, recv_window@, params.deep_view()),
            creds.api_key@,
            timestamp as int,
            recv_window@,
        ),
        r matches Err(e) ==> e == RequestError::InvalidHeaderValue,
{
    let query = query_string(params);
    let canonical = bybit_canonical(
        timestamp,
        creds.api_key.as_str(),
        recv_window,
        query.as_str(),
    );
    let signature = sign(creds.api_secret.as_str(), canonical.as_str());
    proof {
        lemma_signature_header_ok(creds.api_secret@, canonical@);
    }
    let headers = bybit_auth_headers(
        signature.as_str(),
        creds.api_key.as_str(),
        timestamp,
        recv_window,
    );
    match headers {
        Ok(h) => Ok(SignedRequest { url: request_url(base_url, path, params), headers: h }),
        Err(e) => Err(e),
    }
}

/// A signed GET request for exchange "Binance": the timestamp and the receive
/// window lead the query, the signature is appended to it, and the key
/// travels in a header. Fails when the key cannot be carried in a header.
pub fn binance_signed_get(
    base_url: &str,
    path: &str,
    extra: &Vec<(String, String)>,
    creds: &APIKey,
    timestamp: i64,
    recv_window: &str,
) -> (r: Result<SignedRequest, RequestError>)
    ensures
        r is Ok <==> header_text_ok(creds.api_key@),
        r matches Ok(req) ==> {
            let canonical = binance_canonical_text(timestamp as int, recv_window@, extra.deep_view());
            &&& req.url@ == base_url@ + path@ + seq!['?'] + canonical + "&signature="@
                + signature_text(creds.api_secret@, canonical)
            &&& req.headers.deep_view() == binance_headers_of(creds.api_key@)
        },
        r matches Err(e) ==> e == RequestError::InvalidHeaderValue,
{
    let headers = binance_auth_headers(creds.api_key.as_str());
    match headers {
        Ok(h) => {
            let query = binance_signed_query(
                creds.api_secret.as_str(),
                timestamp,
                recv_window,
                extra,
            );
            let mut url = String::from_str(base_url);
            url.append(path);
            url.append("?");
            url.append(query.as_str());
            proof {
                reveal_strlit("?");
                let canonical = binance_canonical_text(
                    timestamp as int,
                    recv_window@,
                    extra.deep_view(),
                );
                assert(url@ =~= base_url@ + path@ + seq!['?'] + canonical + "&signature="@
                    + signature_text(creds.api_secret@, canonical));
            }
            Ok(SignedRequest { url, headers: h })
        },
        Err(e) => Err(e),
    }
}

/// The wallet-balance query of exchange "Bybit": the account type, `UNIFIED`
/// where none is given, then the coin where one is given.
pub fn bybit_account_info_params(account_type: Option<&str>, coin: Option<&str>) -> (r: Vec<
    (String, String),
>)
    ensures
        r.deep_view() == seq![
            ("accountType"@, match account_type {
                Some(t) => t@,
                None => "UNIFIED"@,
            }),
        ] + opt_param("coin"@, coin),
{
    let t = match account_type {
        Some(t) => t,
        None => "UNIFIED",
    };
    let mut params = first_param("accountType", t);
    push_param(&mut params, "coin", coin);
    params
}

/// Whether a position query of exchange "Bybit" names what it must: a symbol
/// or a settle coin.
pub open spec fn positions_filter_ok(symbol: Option<&str>, settle_coin: Option<&str>) -> bool {
    symbol is Some || settle_coin is Some
}

/// The position query of exchange "Bybit", parameters in a fixed order.
pub fn bybit_positions_params(
    category: &str,
    symbol: Option<&str>,
    base_coin: Option<&str>,
    settle_coin: Option<&str>,
    limit: Option<i32>,
    cursor: Option<&str>,
) -> (r: Result<Vec<(String, String)>, RequestError>)
    ensures
        r is Ok <==> positions_filter_ok(symbol, settle_coin),
        r matches Err(e) ==> e == RequestError::MissingPositionFilter,
        r matches Ok(p) ==> p.deep_view() == seq![("category"@, category@)] + opt_param(
            "symbol"@,
            symbol,
        ) + opt_param("baseCoin"@, base_coin) + opt_param("settleCoin"@, settle_coin)
            + opt_int_param("limit"@, limit) + opt_param("cursor"@, cursor),
{
    if symbol.is_none() && settle_coin.is_none() {
        return Err(RequestError::MissingPositionFilter);
    }
    let mut params = first_param("category", category);
    push_param(&mut params, "symbol", symbol);
    push_param(&mut params, "baseCoin", base_coin);
    push_param(&mut params, "settleCoin", settle_coin);
    push_int_param(&mut params, "limit", limit);
    push_param(&mut params, "cursor", cursor);
    Ok(params)
}

/// What an open-order query of exchange "Bybit" must name, by category:
/// `linear` and `inverse` a symbol, base coin or settle coin; `spot` a symbol
/// or base coin; `option` nothing. Another category is refused.
pub open spec fn order_filter_check(
    category: Seq<char>,
    symbol: bool,
    base_coin: bool,
    settle_coin: bool,
) -> Option<RequestError> {
    if category == "linear"@ || category == "inverse"@ {
        if symbol || base_coin || settle_coin {
            None
        } else {
            Some(RequestError::MissingOrderFilter)
        }
    } else if category == "spot"@ {
        if symbol || base_coin {
            None
        } else {
            Some(RequestError::MissingOrderFilter)
        }
    } else if category == "option"@ {
        None
    } else {
        Some(RequestError::InvalidCategory)
    }
}

/// The open-order query of exchange "Bybit", parameters in a fixed order.
pub fn bybit_open_orders_params(
    category: &str,
    symbol: Option<&str>,
    base_coin: Option<&str>,
    settle_coin: Option<&str>,
    order_id: Option<&str>,
    order_link_id: Option<&str>,
    open_only: Option<i32>,
    order_filter: Option<&str>,
    limit: Option<i32>,
    cursor: Option<&str>,
) -> (r: Result<Vec<(String, String)>, RequestError>)
    ensures
        ({
            let check = order_filter_check(
                category@,
                symbol is Some,
                base_coin is Some,
                settle_coin is Some,
            );
            &&& (r is Ok <==> check is None)
            &&& (r matches Err(e) ==> check == Some(e))
        }),
        r matches Ok(p) ==> p.deep_view() == seq![("category"@, category@)] + opt_param(
            "symbol"@,
            symbol,
        ) + opt_param("baseCoin"@, base_coin) + opt_param("settleCoin"@, settle_coin) + opt_param(
            "orderId"@,
            order_id,
        ) + opt_param("orderLinkId"@, order_link_id) + opt_int_param("openOnly"@, open_only)
            + opt_param("orderFilter"@, order_filter) + opt_int_param("limit"@, limit) + opt_param(
            "cursor"@,
            cursor,
        ),
{
    let has_symbol = symbol.is_some();
    let has_base = base_coin.is_some();
    let has_settle = settle_coin.is_some();
    if text_eq(category, "linear") || text_eq(category, "inverse") {
        if !(has_symbol || has_base || has_settle) {
            return Err(RequestError::MissingOrderFilter);
        }
    } else if text_eq(category, "spot") {
        if !(has_symbol || has_base) {
            return Err(RequestError::MissingOrderFilter);
        }
    } else if !text_eq(category, "option") {
        return Err(RequestError::InvalidCategory);
    }
    let mut params = first_param("category", category);
    push_param(&mut params, "symbol", symbol);
    push_param(&mut params, "baseCoin", base_coin);
    push_param(&mut params, "settleCoin", settle_coin);
    push_param(&mut params, "orderId", order_id);
    push_param(&mut params, "orderLinkId", order_link_id);
    push_int_param(&mut params, "openOnly", open_only);
    push_param(&mut params, "orderFilter", order_filter);
    push_int_param(&mut params, "limit", limit);
    push_param(&mut params, "cursor", cursor);
    Ok(params)
}

/// The public order-book query of exchange "Bybit".
pub fn bybit_orderbook_params(category: &str, symbol: &str) -> (r: Vec<(String, String)>)
    ensures
        r.deep_view() == seq![("category"@, category@), ("symbol"@, symbol@)],
{
    let mut params = first_param("category", category);
    push_param(&mut params, "symbol", Some(symbol));
    params
}

/// The public tickers query of exchange "Bybit".
pub fn bybit_tickers_params(
    category: &str,
    symbol: Option<&str>,
    base_coin: Option<&str>,
    exp_date: Option<&str>,
) -> (r: Vec<(String, String)>)
    ensures
        r.deep_view() == seq![("category"@, category@)] + opt_param("symbol"@, symbol) + opt_param(
            "baseCoin"@,
            base_coin,
        ) + opt_param("expDate"@, exp_date),
{
    let mut params = first_param("category", category);
    push_param(&mut params, "symbol", symbol);
    push_param(&mut params, "baseCoin", base_coin);
    push_param(&mut params, "expDate", exp_date);
    params
}

/// The depth limits that exchange "Binance" accepts.
pub open spec fn depth_limit_ok(limit: u32) -> bool {
    limit == 5 || limit == 10 || limit == 20 || limit == 50 || limit == 100 || limit == 500
        || limit == 1000
}

/// The public order-book query of exchange "Binance": the symbol, then the
/// depth limit where one is given. Fails on a limit it does not accept.
pub fn binance_orderbook_params(symbol: &str, limit: Option<u32>) -> (r: Result<
    Vec<(String, String)>,
    RequestError,
>)
    ensures
        r is Ok <==> (limit matches Some(l) ==> depth_limit_ok(l)),
        r matches Err(e) ==> e == RequestError::InvalidDepthLimit,
        r matches Ok(p) ==> p.deep_view() == seq![("symbol"@, symbol@)] + match limit {
            Some(l) => seq![("limit"@, int_text(l as int))],
            None => Seq::empty(),
        },
{
    let mut params = first_param("symbol", symbol);
    match limit {
        Some(l) => {
            if !(l == 5 || l == 10 || l == 20 || l == 50 || l == 100 || l == 500 || l == 1000) {
                return Err(RequestError::InvalidDepthLimit);
            }
            let ghost prev = params.deep_view();
            params.push((String::from_str("limit"), int_to_text(l as i64)));
            proof {
                assert(params.deep_view() =~= prev + seq![("limit"@, int_text(l as int))]);
            }
        },
        None => {
            proof {
                assert(params.deep_view() =~= params.deep_view() + Seq::empty());
            }
        },
    }
    Ok(params)
}

/// The query of exchange "Binance" that names at most a symbol, as its
/// tickers and positions queries do: the symbol where one is given.
pub fn binance_symbol_params(symbol: Option<&str>) -> (r: Vec<(String, String)>)
    ensures
        r.deep_view() == opt_param("symbol"@, symbol),
{
    let mut params: Vec<(String, String)> = Vec::new();
    push_param(&mut params, "symbol", symbol);
    proof {
        assert(params.deep_view() =~= opt_param("symbol"@, symbol));
    }
    params
}

} // verus!
