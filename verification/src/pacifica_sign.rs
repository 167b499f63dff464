//! Pacifica order-signing payloads.
//!
//! The signed message is the compact JSON text of the header members
//! (`type`, `timestamp`, `expiry_window`) together with a `data` member
//! holding the payload, every object's members in key order. Its UTF-8
//! bytes are signed with Ed25519 and the signature is sent base58-encoded.
//!
//! The HTTP body is flat: `account`, `signature`, `timestamp`,
//! `expiry_window` and the payload's own members at the top level.

use vstd::prelude::*;
use crate::execution::{Signer, SignerError};
use crate::json::{
    clone_json, clone_map, json_text, lemma_insert_all_push, lemma_insert_text, lemma_text_pairs_empty,
    lemma_text_pairs_take_step, members_text, text_insert, text_insert_all, text_pairs,
    to_json_string, JsonMap, JsonValue,
};

verus! {

/// Pacifica mainnet REST base URL.
pub const MAINNET_REST_URL: &'static str = "https://api.pacifica.fi/api/v1";

/// Pacifica testnet REST base URL.
pub const TESTNET_REST_URL: &'static str = "https://test-api.pacifica.fi/api/v1";

// ─── Base58 ─────────────────────────────────────────────────────────────

/// The Bitcoin base58 alphabet.
pub open spec fn base58_alphabet() -> Seq<char> {
    "123456789ABCDEFGHJKLMNPQRSTUVWXYZabcdefghijkmnopqrstuvwxyz"@
}

/// Big-endian value of a byte string.
pub open spec fn be_value(bytes: Seq<u8>) -> nat
    decreases bytes.len(),
{
    if bytes.len() == 0 {
        0
    } else {
        be_value(bytes.drop_last()) * 256 + bytes.last() as nat
    }
}

/// Base58 digits of `n`, most significant first; none for zero.
pub open spec fn base58_digits(n: nat) -> Seq<char>
    decreases n,
{
    if n == 0 {
        Seq::empty()
    } else {
        base58_digits(n / 58).push(base58_alphabet()[(n % 58) as int])
    }
}

/// Number of leading zero bytes.
pub open spec fn leading_zero_bytes(bytes: Seq<u8>) -> nat
    decreases bytes.len(),
{
    if bytes.len() > 0 && bytes[0] == 0 {
        1 + leading_zero_bytes(bytes.drop_first())
    } else {
        0
    }
}

/// Base58 text of a byte string: one `1` per leading zero byte, then the
/// base58 digits of its big-endian value.
pub open spec fn base58_text(bytes: Seq<u8>) -> Seq<char> {
    Seq::new(leading_zero_bytes(bytes), |i: int| '1') + base58_digits(be_value(bytes))
}

/// `bs58::encode(bytes).into_string()` with the default (Bitcoin)
/// alphabet: the base58 text of the bytes.
#[verifier::external_body]
fn base58_encode(bytes: &[u8]) -> (r: String)
    ensures
        r@ == base58_text(bytes@),
{
    bs58::encode(bytes).into_string()
}

// ─── Header and payloads ────────────────────────────────────────────────

/// Message header: the three members every signed message carries.
#[derive(Debug, Clone)]
pub struct PacificaHeader {
    /// Message type, e.g. `"create_order"` (the `type` member).
    pub message_type: String,
    /// Unix milliseconds.
    pub timestamp: i64,
    /// Expiry window in milliseconds.
    pub expiry_window: i64,
}

impl PacificaHeader {
    /// Header of type `message_type` at `timestamp_ms`.
    pub fn new(message_type: &str, timestamp_ms: i64, expiry_window_ms: i64) -> (r: Self)
        ensures
            r.message_type@ == message_type@,
            r.timestamp == timestamp_ms,
            r.expiry_window == expiry_window_ms,
    {
        PacificaHeader {
            message_type: message_type.to_owned(),
            timestamp: timestamp_ms,
            expiry_window: expiry_window_ms,
        }
    }

    /// The header as a JSON object.
    pub fn to_json(&self) -> (r: JsonValue)
        ensures
            r matches JsonValue::Object(m) && text_pairs(m.members()) == text_insert_all(
                Seq::empty(),
                seq![
                    ("type"@, str_text(self.message_type)),
                    ("timestamp"@, json_text(JsonValue::Int(self.timestamp))),
                    ("expiry_window"@, json_text(JsonValue::Int(self.expiry_window))),
                ],
            ),
    {
        let mut m = JsonMap::new();
        let ghost mut acc: Seq<(Seq<char>, Seq<char>)> = Seq::empty();
        proof {
            lemma_text_pairs_empty(m.members());
        }
        insert_step(&mut m, "type", JsonValue::Str(self.message_type.clone()), Ghost(acc));
        proof { acc = acc.push(("type"@, str_text(self.message_type))); }
        insert_step(&mut m, "timestamp", JsonValue::Int(self.timestamp), Ghost(acc));
        proof { acc = acc.push(("timestamp"@, json_text(JsonValue::Int(self.timestamp)))); }
        insert_step(&mut m, "expiry_window", JsonValue::Int(self.expiry_window), Ghost(acc));
        proof {
            acc = acc.push(("expiry_window"@, json_text(JsonValue::Int(self.expiry_window))));
            assert(acc =~= seq![
                ("type"@, str_text(self.message_type)),
                ("timestamp"@, json_text(JsonValue::Int(self.timestamp))),
                ("expiry_window"@, json_text(JsonValue::Int(self.expiry_window))),
            ]);
        }
        JsonValue::Object(m)
    }
}

/// Insert `key` with `value` into `m`, stated on the text form.
fn insert_text(m: &mut JsonMap, key: &str, value: JsonValue)
    ensures
        text_pairs(final(m).members()) == text_insert(
            text_pairs(old(m).members()),
            key@,
            json_text(value),
        ),
{
    let k = key.to_owned();
    proof {
        lemma_insert_text(m.members(), k, value);
    }
    m.insert(k, value);
}

/// Insert the next of a sequence of members into `m` built from scratch.
fn insert_step(
    m: &mut JsonMap,
    key: &str,
    value: JsonValue,
    Ghost(acc): Ghost<Seq<(Seq<char>, Seq<char>)>>,
)
    requires
        text_pairs(old(m).members()) == text_insert_all(Seq::empty(), acc),
    ensures
        text_pairs(final(m).members()) == text_insert_all(
            Seq::empty(),
            acc.push((key@, json_text(value))),
        ),
{
    proof {
        lemma_insert_all_push(Seq::empty(), acc, (key@, json_text(value)));
    }
    insert_text(m, key, value);
}

/// Limit-order payload.
#[derive(Debug, Clone)]
pub struct LimitOrderPayload {
    pub symbol: String,
    /// Price as a string.
    pub price: String,
    pub reduce_only: bool,
    /// Amount as a string.
    pub amount: String,
    /// `"bid"` or `"ask"`.
    pub side: String,
    /// Time in force: `"GTC"`, `"IOC"` or `"FOK"`.
    pub tif: String,
    pub client_order_id: String,
}

/// Market-order payload.
#[derive(Debug, Clone)]
pub struct MarketOrderPayload {
    pub symbol: String,
    pub reduce_only: bool,
    pub amount: String,
    pub side: String,
    /// Maximum slippage in percent, as a string.
    pub slippage_percent: String,
    pub client_order_id: String,
}

/// Cancel payload: the order is named by `order_id` or `client_order_id`;
/// an absent one is left out of the object.
#[derive(Debug, Clone)]
pub struct CancelOrderPayload {
    pub symbol: String,
    pub order_id: Option<u64>,
    pub client_order_id: Option<String>,
}

/// Text form of a string member value.
pub open spec fn str_text(s: String) -> Seq<char> {
    json_text(JsonValue::Str(s))
}

/// Text form of a boolean member value.
pub open spec fn bool_text(b: bool) -> Seq<char> {
    json_text(JsonValue::Bool(b))
}

impl LimitOrderPayload {
    /// The payload as a JSON object.
    pub fn to_json(&self) -> (r: JsonValue)
        ensures
            r matches JsonValue::Object(m) && text_pairs(m.members()) == text_insert_all(
                Seq::empty(),
                seq![
                    ("symbol"@, str_text(self.symbol)),
                    ("price"@, str_text(self.price)),
                    ("reduce_only"@, bool_text(self.reduce_only)),
                    ("amount"@, str_text(self.amount)),
                    ("side"@, str_text(self.side)),
                    ("tif"@, str_text(self.tif)),
                    ("client_order_id"@, str_text(self.client_order_id)),
                ],
            ),
    {
        let mut m = JsonMap::new();
        let ghost mut acc: Seq<(Seq<char>, Seq<char>)> = Seq::empty();
        proof {
            lemma_text_pairs_empty(m.members());
        }
        insert_step(&mut m, "symbol", JsonValue::Str(self.symbol.clone()), Ghost(acc));
        proof { acc = acc.push(("symbol"@, str_text(self.symbol))); }
        insert_step(&mut m, "price", JsonValue::Str(self.price.clone()), Ghost(acc));
        proof { acc = acc.push(("price"@, str_text(self.price))); }
        insert_step(&mut m, "reduce_only", JsonValue::Bool(self.reduce_only), Ghost(acc));
        proof { acc = acc.push(("reduce_only"@, bool_text(self.reduce_only))); }
        insert_step(&mut m, "amount", JsonValue::Str(self.amount.clone()), Ghost(acc));
        proof { acc = acc.push(("amount"@, str_text(self.amount))); }
        insert_step(&mut m, "side", JsonValue::Str(self.side.clone()), Ghost(acc));
        proof { acc = acc.push(("side"@, str_text(self.side))); }
        insert_step(&mut m, "tif", JsonValue::Str(self.tif.clone()), Ghost(acc));
        proof { acc = acc.push(("tif"@, str_text(self.tif))); }
        insert_step(&mut m, "client_order_id", JsonValue::Str(self.client_order_id.clone()), Ghost(acc));
        proof {
            acc = acc.push(("client_order_id"@, str_text(self.client_order_id)));
            assert(acc =~= seq![
                ("symbol"@, str_text(self.symbol)),
                ("price"@, str_text(self.price)),
                ("reduce_only"@, bool_text(self.reduce_only)),
                ("amount"@, str_text(self.amount)),
                ("side"@, str_text(self.side)),
                ("tif"@, str_text(self.tif)),
                ("client_order_id"@, str_text(self.client_order_id)),
            ]);
        }
        JsonValue::Object(m)
    }
}

impl MarketOrderPayload {
    /// The payload as a JSON object.
    pub fn to_json(&self) -> (r: JsonValue)
        ensures
            r matches JsonValue::Object(m) && text_pairs(m.members()) == text_insert_all(
                Seq::empty(),
                seq![
                    ("symbol"@, str_text(self.symbol)),
                    ("reduce_only"@, bool_text(self.reduce_only)),
                    ("amount"@, str_text(self.amount)),
                    ("side"@, str_text(self.side)),
                    ("slippage_percent"@, str_text(self.slippage_percent)),
                    ("client_order_id"@, str_text(self.client_order_id)),
                ],
            ),
    {
        let mut m = JsonMap::new();
        let ghost mut acc: Seq<(Seq<char>, Seq<char>)> = Seq::empty();
        proof {
            lemma_text_pairs_empty(m.members());
        }
        insert_step(&mut m, "symbol", JsonValue::Str(self.symbol.clone()), Ghost(acc));
        proof { acc = acc.push(("symbol"@, str_text(self.symbol))); }
        insert_step(&mut m, "reduce_only", JsonValue::Bool(self.reduce_only), Ghost(acc));
        proof { acc = acc.push(("reduce_only"@, bool_text(self.reduce_only))); }
        insert_step(&mut m, "amount", JsonValue::Str(self.amount.clone()), Ghost(acc));
        proof { acc = acc.push(("amount"@, str_text(self.amount))); }
        insert_step(&mut m, "side", JsonValue::Str(self.side.clone()), Ghost(acc));
        proof { acc = acc.push(("side"@, str_text(self.side))); }
        insert_step(&mut m, "slippage_percent", JsonValue::Str(self.slippage_percent.clone()), Ghost(acc));
        proof { acc = acc.push(("slippage_percent"@, str_text(self.slippage_percent))); }
        insert_step(&mut m, "client_order_id", JsonValue::Str(self.client_order_id.clone()), Ghost(acc));
        proof {
            acc = acc.push(("client_order_id"@, str_text(self.client_order_id)));
            assert(acc =~= seq![
                ("symbol"@, str_text(self.symbol)),
                ("reduce_only"@, bool_text(self.reduce_only)),
                ("amount"@, str_text(self.amount)),
                ("side"@, str_text(self.side)),
                ("slippage_percent"@, str_text(self.slippage_percent)),
                ("client_order_id"@, str_text(self.client_order_id)),
            ]);
        }
        JsonValue::Object(m)
    }
}

impl CancelOrderPayload {
    /// The payload as a JSON object; absent identifiers are left out.
    pub fn to_json(&self) -> (r: JsonValue)
        ensures
            r matches JsonValue::Object(m) && text_pairs(m.members()) == {
                let p1 = text_insert(Seq::empty(), "symbol"@, str_text(self.symbol));
                let p2 = match self.order_id {
                    Some(id) => text_insert(p1, "order_id"@, json_text(JsonValue::UInt(id))),
                    None => p1,
                };
                match self.client_order_id {
                    Some(c) => text_insert(p2, "client_order_id"@, str_text(c)),
                    None => p2,
                }
            },
    {
        let mut m = JsonMap::new();
        proof {
            lemma_text_pairs_empty(m.members());
        }
        insert_text(&mut m, "symbol", JsonValue::Str(self.symbol.clone()));
        match self.order_id {
            Some(id) => insert_text(&mut m, "order_id", JsonValue::UInt(id)),
            None => {},
        }
        match &self.client_order_id {
            Some(c) => insert_text(&mut m, "client_order_id", JsonValue::Str(c.clone())),
            None => {},
        }
        JsonValue::Object(m)
    }
}

// ─── Signing message ────────────────────────────────────────────────────

/// Objects keep their members sorted by key, so every value is already in
/// canonical order: the value is returned as it is.
pub fn sort_json_keys(value: JsonValue) -> (r: JsonValue)
    ensures
        r == value,
{
    value
}

/// Text of the error for a header that is not an object.
pub open spec fn header_not_object_text() -> Seq<char> {
    "header must serialize to a JSON object"@
}

/// Text of the error for a header without member `field`.
pub open spec fn header_missing_text(field: Seq<char>) -> Seq<char> {
    "header missing required field `"@ + field + "`"@
}

/// The member a header lacks first, in the order `type`, `timestamp`,
/// `expiry_window`; `None` when it has all three.
pub open spec fn first_missing_header_field(m: JsonMap) -> Option<Seq<char>> {
    if crate::json::key_index(m.members(), "type"@) is None {
        Some("type"@)
    } else if crate::json::key_index(m.members(), "timestamp"@) is None {
        Some("timestamp"@)
    } else if crate::json::key_index(m.members(), "expiry_window"@) is None {
        Some("expiry_window"@)
    } else {
        None
    }
}

/// Text of the signing message for header members `m` and `payload`.
pub open spec fn message_text(m: JsonMap, payload: JsonValue) -> Seq<char> {
    seq!['{'] + members_text(text_insert(text_pairs(m.members()), "data"@, json_text(payload)))
        + seq!['}']
}

/// What `prepare_message` gives for `header` and `payload`.
pub open spec fn spec_prepare_message(header: JsonValue, payload: JsonValue) -> Result<
    Seq<char>,
    Seq<char>,
> {
    match header {
        JsonValue::Object(m) => match first_missing_header_field(m) {
            Some(f) => Err(header_missing_text(f)),
            None => Ok(message_text(m, payload)),
        },
        _ => Err(header_not_object_text()),
    }
}

/// Canonical signing message for a header and a payload: the header
/// object with a `data` member holding the payload (replacing any `data`
/// member of the header), in compact text with members in key order. The
/// header must be an object with `type`, `timestamp` and `expiry_window`.
pub fn prepare_message(header: &JsonValue, payload: &JsonValue) -> (r: Result<String, SignerError>)
    ensures
        (match spec_prepare_message(*header, *payload) {
            Ok(t) => r matches Ok(s) && s@ == t,
            Err(t) => r matches Err(SignerError::SigningFailed(s)) && s@ == t,
        }),
{
    let m = match header {
        JsonValue::Object(m) => m,
        _ => {
            return Err(SignerError::SigningFailed(String::from_str("header must serialize to a JSON object")));
        },
    };
    if m.get("type").is_none() {
        return Err(missing_field_error("type"));
    }
    if m.get("timestamp").is_none() {
        return Err(missing_field_error("timestamp"));
    }
    if m.get("expiry_window").is_none() {
        return Err(missing_field_error("expiry_window"));
    }
    let mut data_map = clone_map(m);
    let p = clone_json(payload);
    insert_text(&mut data_map, "data", p);
    let data = JsonValue::Object(data_map);
    let text = to_json_string(&data);
    Ok(text)
}

fn missing_field_error(field: &str) -> (r: SignerError)
    ensures
        r matches SignerError::SigningFailed(s) && s@ == header_missing_text(field@),
{
    let mut s = String::from_str("header missing required field `");
    s.append(field);
    s.append("`");
    SignerError::SigningFailed(s)
}

/// Sign the canonical message for `header` and `payload` with `signer`:
/// the message text and the base58 text of the signer's signature over the
/// message's UTF-8 bytes. A failing signer's error is returned as is.
pub fn sign_message<S: Signer>(header: &JsonValue, payload: &JsonValue, signer: &S) -> (r: Result<
    (String, String),
    SignerError,
>)
    ensures
        (match spec_prepare_message(*header, *payload) {
            Ok(t) => match r {
                Ok((msg, sig)) => msg@ == t && sig@ == base58_text(
                    signer.signature_for(vstd::utf8::encode_utf8(t)),
                ),
                Err(_) => true,
            },
            Err(t) => r matches Err(SignerError::SigningFailed(s)) && s@ == t,
        }),
{
    let message = prepare_message(header, payload)?;
    let signature = signer.sign(message.as_str().as_bytes());
    signed_pair(message, signature)
}

/// What signing returns once the signer has answered: the message with the
/// base58 text of the signature, or the signer's error unchanged.
pub fn signed_pair(message: String, signature: Result<Vec<u8>, SignerError>) -> (r: Result<
    (String, String),
    SignerError,
>)
    ensures
        (match signature {
            Ok(b) => r matches Ok((m, s)) && m@ == message@ && s@ == base58_text(b@),
            Err(e) => r == Err::<(String, String), SignerError>(e),
        }),
{
    match signature {
        Ok(b) => {
            let sig = base58_encode(b.as_slice());
            Ok((message, sig))
        },
        Err(e) => Err(e),
    }
}

/// Text of the error for a payload that is not an object.
pub open spec fn payload_not_object_text() -> Seq<char> {
    "payload must serialize to a JSON object"@
}

/// Members of the request body: `account`, `signature`, `timestamp`,
/// `expiry_window`, then the payload's members (a payload member replaces
/// one of the four with the same key).
pub open spec fn spec_body_pairs(
    account: Seq<char>,
    signature: Seq<char>,
    header: PacificaHeader,
    payload: JsonMap,
) -> Seq<(Seq<char>, Seq<char>)> {
    text_insert_all(
        text_insert_all(
            Seq::empty(),
            seq![
                ("account"@, crate::json::quoted(account)),
                ("signature"@, crate::json::quoted(signature)),
                ("timestamp"@, json_text(JsonValue::Int(header.timestamp))),
                ("expiry_window"@, json_text(JsonValue::Int(header.expiry_window))),
            ],
        ),
        text_pairs(payload.members()),
    )
}

/// The HTTP request body: a flat object of `account`, `signature`,
/// `timestamp`, `expiry_window` and the payload's members. The payload
/// must be an object.
pub fn build_request_body(
    account_base58: &str,
    signature_base58: &str,
    header: &PacificaHeader,
    payload: &JsonValue,
) -> (r: Result<JsonValue, SignerError>)
    ensures
        (match *payload {
            JsonValue::Object(pm) => r matches Ok(JsonValue::Object(b)) && text_pairs(b.members())
                == spec_body_pairs(account_base58@, signature_base58@, *header, pm),
            _ => r matches Err(SignerError::SigningFailed(s)) && s@ == payload_not_object_text(),
        }),
{
    let pm = match payload {
        JsonValue::Object(pm) => pm,
        _ => {
            return Err(SignerError::SigningFailed(String::from_str("payload must serialize to a JSON object")));
        },
    };
    let mut body = JsonMap::new();
    let ghost mut acc: Seq<(Seq<char>, Seq<char>)> = Seq::empty();
    proof {
        lemma_text_pairs_empty(body.members());
    }
    insert_step(&mut body, "account", JsonValue::Str(account_base58.to_owned()), Ghost(acc));
    proof { acc = acc.push(("account"@, crate::json::quoted(account_base58@))); }
    insert_step(&mut body, "signature", JsonValue::Str(signature_base58.to_owned()), Ghost(acc));
    proof { acc = acc.push(("signature"@, crate::json::quoted(signature_base58@))); }
    insert_step(&mut body, "timestamp", JsonValue::Int(header.timestamp), Ghost(acc));
    proof { acc = acc.push(("timestamp"@, json_text(JsonValue::Int(header.timestamp)))); }
    insert_step(&mut body, "expiry_window", JsonValue::Int(header.expiry_window), Ghost(acc));
    proof {
        acc = acc.push(("expiry_window"@, json_text(JsonValue::Int(header.expiry_window))));
        assert(acc =~= seq![
            ("account"@, crate::json::quoted(account_base58@)),
            ("signature"@, crate::json::quoted(signature_base58@)),
            ("timestamp"@, json_text(JsonValue::Int(header.timestamp))),
            ("expiry_window"@, json_text(JsonValue::Int(header.expiry_window))),
        ]);
        lemma_text_pairs_empty(pm.members().take(0));
    }
    let ghost base = text_pairs(body.members());
    let mut i: usize = 0;
    while i < pm.len()
        invariant
            i <= pm.members().len(),
            text_pairs(body.members()) == text_insert_all(base, text_pairs(pm.members().take(i as int))),
        decreases pm.members().len() - i,
    {
        let (k, v) = pm.member(i);
        let c = clone_json(v);
        insert_text(&mut body, k, c);
        proof {
            lemma_text_pairs_take_step(pm.members(), i as int);
            lemma_insert_all_push(base, text_pairs(pm.members().take(i as int)), (pm.members()[i as int].0@, json_text(pm.members()[i as int].1)));
        }
        i = i + 1;
    }
    proof {
        assert(pm.members().take(pm.members().len() as int) =~= pm.members());
    }
    Ok(JsonValue::Object(body))
}

} // verus!
