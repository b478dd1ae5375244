//! Request signing: canonical strings, HMAC-SHA256 signatures and the
//! authentication headers of the two exchanges.
//!
//! Exchange "Bybit" signs `timestamp ++ api_key ++ recv_window ++ payload` and
//! carries the signature in headers; exchange "Binance" signs the query string
//! itself and appends the signature to it as one more parameter.
use vstd::prelude::*;

use crate::text::{int_text, int_to_text, nat_text, push_int_text, query_string, query_text, lemma_nat_text_first};
use vstd::utf8::encode_utf8;

verus! {

/// An exchange account's credentials. The secret only ever enters a
/// signature: no header, URL or error carries it.
pub struct APIKey {
    pub api_name: String,
    pub api_key: String,
    pub api_secret: String,
}

/// Why a request could not be built.
#[derive(Debug, Clone, Copy, PartialEq, Eq)]
pub enum RequestError {
    /// A value meant for a header holds a byte that no header may carry.
    InvalidHeaderValue,
    /// A position query names neither a symbol nor a settle coin.
    MissingPositionFilter,
    /// An open-order query lacks the filter its category requires.
    MissingOrderFilter,
    /// The category is not one of `linear`, `inverse`, `spot`, `option`.
    InvalidCategory,
    /// The depth limit is not one of 5, 10, 20, 50, 100, 500, 1000.
    InvalidDepthLimit,
}

/// The HMAC-SHA256 tag of a message under a key.
pub uninterp spec fn hmac_sha256_of(key: Seq<u8>, msg: Seq<u8>) -> Seq<u8>;

pub open spec fn hex_digit(n: int) -> char {
    seq!['0', '1', '2', '3', '4', '5', '6', '7', '8', '9', 'a', 'b', 'c', 'd', 'e', 'f'][n]
}

/// Lowercase hex, two digits per byte, high nibble first.
pub open spec fn hex_text(b: Seq<u8>) -> Seq<char>
    decreases b.len(),
{
    if b.len() == 0 {
        Seq::empty()
    } else {
        hex_text(b.drop_last()) + seq![hex_digit(b.last() as int / 16), hex_digit(b.last() as int % 16)]
    }
}

/// A byte that a header value may hold: a tab, or a byte from 32 up but 127.
pub open spec fn header_byte_ok(b: u8) -> bool {
    (b >= 32 && b != 127) || b == 9
}

pub open spec fn header_text_ok(t: Seq<char>) -> bool {
    forall|i: int| 0 <= i < encode_utf8(t).len() ==> header_byte_ok(#[trigger] encode_utf8(t)[i])
}

proof fn lemma_hex_text_len(b: Seq<u8>)
    ensures
        hex_text(b).len() == 2 * b.len(),
    decreases b.len(),
{
    if b.len() > 0 {
        lemma_hex_text_len(b.drop_last());
    }
}

proof fn lemma_hex_text_digits(b: Seq<u8>)
    ensures
        forall|i: int| 0 <= i < hex_text(b).len() ==> '0' <= #[trigger] hex_text(b)[i] <= 'f',
    decreases b.len(),
{
    if b.len() > 0 {
        lemma_hex_text_digits(b.drop_last());
        let x = b.last() as int;
        assert(0 <= x / 16 < 16 && 0 <= x % 16 < 16);
        let digits = seq!['0', '1', '2', '3', '4', '5', '6', '7', '8', '9', 'a', 'b', 'c', 'd', 'e', 'f'];
        assert(forall|k: int| 0 <= k < 16 ==> '0' <= #[trigger] digits[k] <= 'f');
        let t = hex_text(b);
        let t0 = hex_text(b.drop_last());
        assert forall|i: int| 0 <= i < t.len() implies '0' <= #[trigger] t[i] <= 'f' by {
            if i < t0.len() {
                assert(t[i] == t0[i]);
            } else if i == t0.len() {
                assert(t[i] == digits[x / 16]);
            } else {
                assert(t[i] == digits[x % 16]);
            }
        }
    }
}

/// A signature can always be carried in a header: it is lowercase hex.
pub proof fn lemma_signature_header_ok(secret: Seq<char>, canonical: Seq<char>)
    ensures
        header_text_ok(signature_text(secret, canonical)),
{
    let t = signature_text(secret, canonical);
    lemma_hex_text_digits(hmac_sha256_of(encode_utf8(secret), encode_utf8(canonical)));
    assert(vstd::utf8::is_ascii_chars(t));
    vstd::utf8::is_ascii_chars_encode_utf8(t);
    assert forall|i: int| 0 <= i < encode_utf8(t).len() implies header_byte_ok(
        #[trigger] encode_utf8(t)[i],
    ) by {
        assert(t[i] as u8 == encode_utf8(t)[i]);
        assert('0' <= t[i] <= 'f');
    }
}

/// Relies on hmac 0.12 (`Hmac::<Sha256>::new_from_slice`, `Mac::update`,
/// `Mac::finalize`) for the HMAC-SHA256 tag of `msg` under `key`.
/// `new_from_slice` accepts a key of any length, so a tag always comes back;
/// SHA-256's output, and so the tag, is 32 bytes.
#[verifier::external_body]
fn hmac_sha256(key: &[u8], msg: &[u8]) -> (r: Option<Vec<u8>>)
    ensures
        r.is_some() && r.unwrap()@ == hmac_sha256_of(key@, msg@),
        r.is_some() ==> r.unwrap()@.len() == 32,
{
    let mut mac = <hmac::Hmac<sha2::Sha256> as hmac::Mac>::new_from_slice(key).ok()?;
    hmac::Mac::update(&mut mac, msg);
    Some(hmac::Mac::finalize(mac).into_bytes().to_vec())
}

/// Relies on hex::encode: two lowercase hex digits per byte, high nibble first.
#[verifier::external_body]
fn hex_encode(b: &[u8]) -> (r: String)
    ensures
        r@ == hex_text(b@),
{
    hex::encode(b)
}

/// Relies on reqwest::header::HeaderValue::from_str, which accepts a text
/// exactly when each of its bytes is a tab, or from 32 up but not 127.
#[verifier::external_body]
fn header_value_ok(s: &str) -> (r: bool)
    ensures
        r == header_text_ok(s@),
{
    reqwest::header::HeaderValue::from_str(s).is_ok()
}

/// The signature of a canonical string: hex of its HMAC-SHA256 tag under
/// the secret, both taken as UTF-8 bytes.
pub open spec fn signature_text(secret: Seq<char>, canonical: Seq<char>) -> Seq<char> {
    hex_text(hmac_sha256_of(encode_utf8(secret), encode_utf8(canonical)))
}

/// Signs a canonical string with a secret.
pub fn sign(secret: &str, canonical: &str) -> (r: String)
    ensures
        r@ == signature_text(secret@, canonical@),
        r@.len() == 64,
{
    let tag = hmac_sha256(secret.as_bytes(), canonical.as_bytes());
    proof {
        lemma_hex_text_len(tag.unwrap()@);
    }
    match tag {
        Some(t) => hex_encode(t.as_slice()),
        None => String::new(),
    }
}

/// Exchange "Bybit"'s canonical string.
pub open spec fn bybit_canonical_text(
    timestamp: int,
    api_key: Seq<char>,
    recv_window: Seq<char>,
    payload: Seq<char>,
) -> Seq<char> {
    int_text(timestamp) + api_key + recv_window + payload
}

/// The payload that a JSON body contributes: nothing for an empty object.
pub open spec fn body_payload(json: Seq<char>) -> Seq<char> {
    if json == seq!['{', '}'] {
        Seq::empty()
    } else {
        json
    }
}

/// Exchange "Binance"'s canonical string: the query string that starts with
/// the timestamp and the receive window and goes on with the other parameters.
pub open spec fn binance_canonical_text(
    timestamp: int,
    recv_window: Seq<char>,
    extra: Seq<(Seq<char>, Seq<char>)>,
) -> Seq<char> {
    query_text(seq![("timestamp"@, int_text(timestamp)), ("recvWindow"@, recv_window)] + extra)
}

/// Exchange "Bybit"'s canonical string for a query or body text.
pub fn bybit_canonical(timestamp: i64, api_key: &str, recv_window: &str, payload: &str) -> (r:
    String)
    ensures
        r@ == bybit_canonical_text(timestamp as int, api_key@, recv_window@, payload@),
{
    let mut out = String::new();
    push_int_text(&mut out, timestamp);
    out.append(api_key);
    out.append(recv_window);
    out.append(payload);
    proof {
        assert(out@ =~= bybit_canonical_text(timestamp as int, api_key@, recv_window@, payload@));
    }
    out
}

/// Exchange "Bybit"'s canonical string for a JSON body: an empty object
/// contributes nothing.
pub fn bybit_body_canonical(timestamp: i64, api_key: &str, recv_window: &str, body_json: &str) -> (r:
    String)
    ensures
        r@ == bybit_canonical_text(
            timestamp as int,
            api_key@,
            recv_window@,
            body_payload(body_json@),
        ),
{
    let empty_object = body_json.unicode_len() == 2 && body_json.get_char(0) == '{'
        && body_json.get_char(1) == '}';
    if empty_object {
        proof {
            assert(body_json@ =~= seq!['{', '}']);
            reveal_strlit("");
        }
        bybit_canonical(timestamp, api_key, recv_window, "")
    } else {
        proof {
            if body_json@ == seq!['{', '}'] {
                assert(body_json@[0] == '{' && body_json@[1] == '}');
            }
        }
        bybit_canonical(timestamp, api_key, recv_window, body_json)
    }
}

/// The query parameters that exchange "Binance" signs: timestamp, receive
/// window, then the others in the order given.
pub fn binance_signed_params(timestamp: i64, recv_window: &str, extra: &Vec<(String, String)>) -> (r:
    Vec<(String, String)>)
    ensures
        r.deep_view() == seq![("timestamp"@, int_text(timestamp as int)), ("recvWindow"@, recv_window@)]
            + extra.deep_view(),
{
    let mut params: Vec<(String, String)> = Vec::new();
    params.push((String::from_str("timestamp"), int_to_text(timestamp)));
    params.push((String::from_str("recvWindow"), String::from_str(recv_window)));
    let mut i: usize = 0;
    while i < extra.len()
        invariant
            i <= extra@.len(),
            params.deep_view() == seq![
                ("timestamp"@, int_text(timestamp as int)),
                ("recvWindow"@, recv_window@),
            ] + extra.deep_view().subrange(0, i as int),
        decreases extra@.len() - i,
    {
        let ghost prev = params.deep_view();
        let k = extra[i].0.clone();
        let v = extra[i].1.clone();
        let ghost kv = (k@, v@);
        params.push((k, v));
        proof {
            assert(params.deep_view() =~= prev.push(kv));
            assert(extra.deep_view()[i as int] == kv);
            assert(params.deep_view() =~= seq![
                ("timestamp"@, int_text(timestamp as int)),
                ("recvWindow"@, recv_window@),
            ] + extra.deep_view().subrange(0, i + 1));
        }
        i = i + 1;
    }
    proof {
        assert(extra.deep_view().subrange(0, extra@.len() as int) =~= extra.deep_view());
    }
    params
}

/// Exchange "Binance"'s canonical string.
pub fn binance_canonical(timestamp: i64, recv_window: &str, extra: &Vec<(String, String)>) -> (r:
    String)
    ensures
        r@ == binance_canonical_text(timestamp as int, recv_window@, extra.deep_view()),
{
    let params = binance_signed_params(timestamp, recv_window, extra);
    query_string(&params)
}

/// A signed query for exchange "Binance": the canonical string followed by
/// `&signature=` and its signature.
pub fn binance_signed_query(
    secret: &str,
    timestamp: i64,
    recv_window: &str,
    extra: &Vec<(String, String)>,
) -> (r: String)
    ensures
        r@ == binance_canonical_text(timestamp as int, recv_window@, extra.deep_view())
            + "&signature="@ + signature_text(
            secret@,
            binance_canonical_text(timestamp as int, recv_window@, extra.deep_view()),
        ),
{
    let canonical = binance_canonical(timestamp, recv_window, extra);
    let signature = sign(secret, canonical.as_str());
    let mut out = canonical.clone();
    out.append("&signature=");
    out.append(signature.as_str());
    out
}

/// Exchange "Bybit"'s authentication headers, in order.
pub open spec fn bybit_headers_of(
    signature: Seq<char>,
    api_key: Seq<char>,
    timestamp: int,
    recv_window: Seq<char>,
) -> Seq<(Seq<char>, Seq<char>)> {
    seq![
        ("Content-Type"@, "application/json"@),
        ("X-BAPI-SIGN"@, signature),
        ("X-BAPI-API-KEY"@, api_key),
        ("X-BAPI-TIMESTAMP"@, int_text(timestamp)),
        ("X-BAPI-RECV-WINDOW"@, recv_window),
    ]
}

/// Exchange "Binance"'s authentication headers, in order.
pub open spec fn binance_headers_of(api_key: Seq<char>) -> Seq<(Seq<char>, Seq<char>)> {
    seq![("X-MBX-APIKEY"@, api_key), ("Content-Type"@, "application/x-www-form-urlencoded"@)]
}

/// Exchange "Bybit"'s authentication headers for a signature. Fails when the
/// signature, the key or the receive window cannot stand in a header.
pub fn bybit_auth_headers(signature: &str, api_key: &str, timestamp: i64, recv_window: &str) -> (r:
    Result<Vec<(String, String)>, RequestError>)
    ensures
        r is Ok <==> (header_text_ok(signature@) && header_text_ok(api_key@) && header_text_ok(
            recv_window@,
        )),
        r matches Ok(h) ==> h.deep_view() == bybit_headers_of(
            signature@,
            api_key@,
            timestamp as int,
            recv_window@,
        ),
        r matches Err(e) ==> e == RequestError::InvalidHeaderValue,
{
    if !header_value_ok(signature) || !header_value_ok(api_key) || !header_value_ok(recv_window) {
        return Err(RequestError::InvalidHeaderValue);
    }
    let mut h: Vec<(String, String)> = Vec::new();
    h.push((String::from_str("Content-Type"), String::from_str("application/json")));
    h.push((String::from_str("X-BAPI-SIGN"), String::from_str(signature)));
    h.push((String::from_str("X-BAPI-API-KEY"), String::from_str(api_key)));
    h.push((String::from_str("X-BAPI-TIMESTAMP"), int_to_text(timestamp)));
    h.push((String::from_str("X-BAPI-RECV-WINDOW"), String::from_str(recv_window)));
    proof {
        assert(h.deep_view() =~= bybit_headers_of(
            signature@,
            api_key@,
            timestamp as int,
            recv_window@,
        ));
    }
    Ok(h)
}

/// Exchange "Binance"'s authentication headers. Fails when the key cannot
/// stand in a header.
pub fn binance_auth_headers(api_key: &str) -> (r: Result<Vec<(String, String)>, RequestError>)
    ensures
        r is Ok <==> header_text_ok(api_key@),
        r matches Ok(h) ==> h.deep_view() == binance_headers_of(api_key@),
        r matches Err(e) ==> e == RequestError::InvalidHeaderValue,
{
    if !header_value_ok(api_key) {
        return Err(RequestError::InvalidHeaderValue);
    }
    let mut h: Vec<(String, String)> = Vec::new();
    h.push((String::from_str("X-MBX-APIKEY"), String::from_str(api_key)));
    h.push(
        (String::from_str("Content-Type"), String::from_str("application/x-www-form-urlencoded")),
    );
    proof {
        assert(h.deep_view() =~= binance_headers_of(api_key@));
    }
    Ok(h)
}

proof fn lemma_query_text_first(ps: Seq<(Seq<char>, Seq<char>)>)
    requires
        ps.len() > 0,
        ps[0].0.len() > 0,
    ensures
        query_text(ps).len() > 0,
        query_text(ps)[0] == ps[0].0[0],
    decreases ps.len(),
{
    if ps.len() > 1 {
        lemma_query_text_first(ps.drop_last());
    }
}

/// With the same timestamp, key and receive window and no other parameters,
/// the two exchanges' canonical strings differ: an empty payload does not make
/// them coincide.
pub proof fn lemma_canonical_strings_differ(
    timestamp: int,
    api_key: Seq<char>,
    recv_window: Seq<char>,
)
    ensures
        binance_canonical_text(timestamp, recv_window, Seq::empty()) != bybit_canonical_text(
            timestamp,
            api_key,
            recv_window,
            Seq::empty(),
        ),
{
    reveal_strlit("timestamp");
    let ps = seq![("timestamp"@, int_text(timestamp)), ("recvWindow"@, recv_window)] + Seq::<
        (Seq<char>, Seq<char>),
    >::empty();
    assert(ps[0] == ("timestamp"@, int_text(timestamp)));
    lemma_query_text_first(ps);
    let b = binance_canonical_text(timestamp, recv_window, Seq::empty());
    assert(b[0] == 't');
    let y = bybit_canonical_text(timestamp, api_key, recv_window, Seq::empty());
    if timestamp < 0 {
        lemma_nat_text_first((-timestamp) as nat);
        assert(y[0] == '-');
    } else {
        lemma_nat_text_first(timestamp as nat);
        assert(y[0] == nat_text(timestamp as nat)[0]);
    }
}

} // verus!
