//! Venue-adapter vocabulary: order style, adapter errors, and the
//! credential and endpoint rules of the authenticated Pacifica adapter.

use vstd::prelude::*;
use crate::binary64::{lt, spec_lt, ZERO};

verus! {

/// Order execution style.
#[derive(Debug, Clone, Copy, PartialEq, Eq, Structural)]
pub enum OrderKind {
    /// Maker post-only (cancel if it would cross).
    MakerPost,
    /// Immediate-or-cancel taker.
    TakerIoc,
}

/// Why an adapter call failed.
#[derive(Debug, Clone, PartialEq, Eq)]
pub enum AdapterError {
    Network(String),
    Parse(String),
    SymbolNotFound(String),
    NotImplemented(String),
    Fixture(String),
}

/// Human-readable text of an adapter error.
pub open spec fn spec_adapter_error_text(e: AdapterError) -> Seq<char> {
    match e {
        AdapterError::Network(s) => "network error: "@ + s@,
        AdapterError::Parse(s) => "parse error: "@ + s@,
        AdapterError::SymbolNotFound(s) => "symbol not found: "@ + s@,
        AdapterError::NotImplemented(s) => "not implemented: "@ + s@,
        AdapterError::Fixture(s) => "fixture error: "@ + s@,
    }
}

fn prefixed(prefix: &str, s: &String) -> (r: String)
    ensures
        r@ == prefix@ + s@,
{
    let mut out = String::from_str(prefix);
    out.append(s.as_str());
    out
}

impl AdapterError {
    /// Human-readable text of the error.
    pub fn describe(&self) -> (r: String)
        ensures
            r@ == spec_adapter_error_text(*self),
    {
        match self {
            AdapterError::Network(s) => prefixed("network error: ", s),
            AdapterError::Parse(s) => prefixed("parse error: ", s),
            AdapterError::SymbolNotFound(s) => prefixed("symbol not found: ", s),
            AdapterError::NotImplemented(s) => prefixed("not implemented: ", s),
            AdapterError::Fixture(s) => prefixed("fixture error: ", s),
        }
    }
}

/// Environment variable holding the Pacifica API key.
pub const ENV_API_KEY: &'static str = "PACIFICA_API_KEY";

/// Environment variable holding the Pacifica builder code.
pub const ENV_BUILDER_CODE: &'static str = "PACIFICA_BUILDER_CODE";

/// Pacifica REST base URL.
pub const PACIFICA_REST_URL: &'static str = "https://api.pacifica.fi/api/v1";

/// Credentials are accepted iff neither is empty; the API key is checked
/// first.
pub fn check_credentials(api_key: &str, builder_code: &str) -> (r: Result<(), AdapterError>)
    ensures
        api_key@.len() == 0 ==> (r matches Err(AdapterError::Parse(m)) && m@
            == "PACIFICA_API_KEY must not be empty"@),
        api_key@.len() > 0 && builder_code@.len() == 0 ==> (r matches Err(AdapterError::Parse(m))
            && m@ == "PACIFICA_BUILDER_CODE must not be empty"@),
        api_key@.len() > 0 && builder_code@.len() > 0 ==> r is Ok,
{
    if api_key.unicode_len() == 0 {
        return Err(AdapterError::Parse(String::from_str("PACIFICA_API_KEY must not be empty")));
    }
    if builder_code.unicode_len() == 0 {
        return Err(AdapterError::Parse(String::from_str("PACIFICA_BUILDER_CODE must not be empty")));
    }
    Ok(())
}

/// Number of trailing `/` characters.
pub open spec fn trailing_slashes(s: Seq<char>) -> nat
    decreases s.len(),
{
    if s.len() > 0 && s.last() == '/' {
        1 + trailing_slashes(s.drop_last())
    } else {
        0
    }
}

/// `url` without its trailing slashes.
pub fn trim_trailing_slashes(url: &str) -> (r: String)
    ensures
        r@ == url@.take(url@.len() - trailing_slashes(url@)),
{
    let n = url.unicode_len();
    let mut j: usize = n;
    proof {
        assert(url@.take(n as int) =~= url@);
    }
    while j > 0 && url.get_char(j - 1) == '/'
        invariant
            n == url@.len(),
            j <= n,
            forall|k: int| j <= k < n ==> #[trigger] url@[k] == '/',
            trailing_slashes(url@) == (n - j) + trailing_slashes(url@.take(j as int)),
        decreases j,
    {
        proof {
            assert(url@.take(j as int).drop_last() =~= url@.take(j - 1));
            assert(url@.take(j as int).last() == url@[j - 1]);
        }
        j = j - 1;
    }
    proof {
        if j > 0 {
            assert(url@.take(j as int).last() == url@[j - 1]);
        }
        assert(url@.subrange(0, j as int) =~= url@.take(j as int));
    }
    url.substring_char(0, j).to_owned()
}

fn concat3(a: &str, b: &str, c: &str) -> (r: String)
    ensures
        r@ == a@ + b@ + c@,
{
    let mut out = String::from_str(a);
    out.append(b);
    out.append(c);
    out
}

/// Endpoints tried, in order, for the account summary: the account query
/// for the builder code, then `/account/info`, then `/user`.
pub fn account_info_urls(base_url: &str, builder_code: &str) -> (r: Vec<String>)
    ensures
        r@.len() == 3,
        r@[0]@ == base_url@ + "/account?account="@ + builder_code@,
        r@[1]@ == base_url@ + "/account/info"@,
        r@[2]@ == base_url@ + "/user"@,
{
    let mut v: Vec<String> = Vec::new();
    v.push(concat3(base_url, "/account?account=", builder_code));
    v.push(concat3(base_url, "/account/info", ""));
    v.push(concat3(base_url, "/user", ""));
    proof {
        reveal_strlit("");
        assert(base_url@ + "/account/info"@ + ""@ =~= base_url@ + "/account/info"@);
        assert(base_url@ + "/user"@ + ""@ =~= base_url@ + "/user"@);
    }
    v
}

/// Endpoint of the builder-program status.
pub fn builder_status_url(base_url: &str, builder_code: &str) -> (r: String)
    ensures
        r@ == base_url@ + "/builder/program?builder_code="@ + builder_code@,
{
    concat3(base_url, "/builder/program?builder_code=", builder_code)
}

/// What the account fetch does after trying one endpoint.
#[derive(Debug, Clone, Copy, PartialEq, Eq, Structural)]
pub enum EndpointStep {
    /// The endpoint answered: return its result.
    Return,
    /// Not found: try the next endpoint.
    TryNext,
}

/// An endpoint that is not found moves on to the next one; any other
/// outcome, success or failure, is returned.
pub fn endpoint_step(result: &Result<(), AdapterError>) -> (r: EndpointStep)
    ensures
        r == (if result matches Err(AdapterError::SymbolNotFound(_)) {
            EndpointStep::TryNext
        } else {
            EndpointStep::Return
        }),
{
    match result {
        Err(AdapterError::SymbolNotFound(_)) => EndpointStep::TryNext,
        _ => EndpointStep::Return,
    }
}

/// What an HTTP status means for a read of `url` under `label` (such as
/// `"/account"`): with `not_found_skips`, 404 is "not found" so that the
/// caller can try the next endpoint; any other status outside 2xx is a
/// network error naming the status text; a 2xx status leaves a body to
/// decode.
pub fn http_status_result(
    code: u16,
    status_text: &str,
    label: &str,
    url: &str,
    not_found_skips: bool,
) -> (r: Result<(), AdapterError>)
    ensures
        not_found_skips && code == 404 ==> (r matches Err(AdapterError::SymbolNotFound(u)) && u@
            == url@),
        !(not_found_skips && code == 404) && 200 <= code < 300 ==> r is Ok,
        !(not_found_skips && code == 404) && !(200 <= code < 300) ==> (r matches Err(
            AdapterError::Network(m),
        ) && m@ == "pacifica "@ + label@ + ": HTTP "@ + status_text@),
{
    if not_found_skips && code == 404 {
        return Err(AdapterError::SymbolNotFound(url.to_owned()));
    }
    if 200 <= code && code < 300 {
        return Ok(());
    }
    let mut m = String::from_str("pacifica ");
    m.append(label);
    m.append(": HTTP ");
    m.append(status_text);
    Err(AdapterError::Network(m))
}

/// How a decoded reply is read.
#[derive(Debug, Clone, Copy, PartialEq, Eq, Structural)]
pub enum EnvelopeStep {
    /// The envelope reports success and carries data: read the data.
    UseData,
    /// The envelope reports failure: an API error.
    ApiError,
    /// No usable envelope: read the reply as the object itself.
    UseRaw,
}

/// A reply that parses as an envelope reporting success with data gives
/// its data; one reporting failure is an API error; anything else (no
/// envelope, or success without data) is read as the object itself.
pub fn envelope_step(parsed: bool, success: bool, has_data: bool) -> (r: EnvelopeStep)
    ensures
        r == (if parsed && success && has_data {
            EnvelopeStep::UseData
        } else if parsed && !success {
            EnvelopeStep::ApiError
        } else {
            EnvelopeStep::UseRaw
        }),
{
    if parsed && success && has_data {
        EnvelopeStep::UseData
    } else if parsed && !success {
        EnvelopeStep::ApiError
    } else {
        EnvelopeStep::UseRaw
    }
}

/// Error for an envelope that reports failure, with the API's message
/// (empty when it gave none).
pub fn api_error(label: &str, message: Option<&str>) -> (r: AdapterError)
    ensures
        r matches AdapterError::Network(m) && m@ == "pacifica "@ + label@ + " API error: "@ + (
        match message {
            Some(t) => t@,
            None => Seq::<char>::empty(),
        }),
{
    let mut m = String::from_str("pacifica ");
    m.append(label);
    m.append(" API error: ");
    match message {
        Some(t) => m.append(t),
        None => {},
    }
    AdapterError::Network(m)
}

/// Where a snapshot's mid price comes from, given the best bid and ask.
#[derive(Debug, Clone, Copy, PartialEq, Eq, Structural)]
pub enum MidSource {
    /// Both sides are positive: their average.
    Both,
    /// Only the bid is positive.
    BidOnly,
    /// Only the ask is positive.
    AskOnly,
    /// Neither side is positive: no mid price.
    Neither,
}

/// The mid price is the average of a positive bid and a positive ask, else
/// the one positive side, else there is none (binary64 comparisons: a NaN
/// side is not positive).
pub fn mid_source(bid: u64, ask: u64) -> (r: MidSource)
    ensures
        r == (if spec_lt(ZERO, bid) && spec_lt(ZERO, ask) {
            MidSource::Both
        } else if spec_lt(ZERO, bid) {
            MidSource::BidOnly
        } else if spec_lt(ZERO, ask) {
            MidSource::AskOnly
        } else {
            MidSource::Neither
        }),
{
    let bid_pos = lt(ZERO, bid);
    let ask_pos = lt(ZERO, ask);
    if bid_pos && ask_pos {
        MidSource::Both
    } else if bid_pos {
        MidSource::BidOnly
    } else if ask_pos {
        MidSource::AskOnly
    } else {
        MidSource::Neither
    }
}

} // verus!
