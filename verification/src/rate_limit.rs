//! HTTP 429 handling: the wait a `Retry-After` header asks for.
//!
//! The value is either a non-negative number of seconds or an HTTP date
//! (RFC 2822 form). A missing, empty or unparseable value gives the default
//! wait; any wait is capped.

use vstd::prelude::*;

verus! {

/// Wait when the server gives no usable `Retry-After`.
pub const DEFAULT_BACKOFF_SECS: u64 = 30;

/// Cap on any wait.
pub const MAX_BACKOFF_SECS: u64 = 60;

/// Unicode white space, as `char::is_whitespace` defines it.
pub open spec fn is_white_space(c: char) -> bool {
    ||| c == '\t' || c == '\n' || c == '\u{b}' || c == '\u{c}' || c == '\r' || c == ' '
    ||| c == '\u{85}' || c == '\u{a0}' || c == '\u{1680}'
    ||| ('\u{2000}' <= c && c <= '\u{200a}')
    ||| c == '\u{2028}' || c == '\u{2029}' || c == '\u{202f}' || c == '\u{205f}' || c == '\u{3000}'
}

/// Number of leading white-space characters.
pub open spec fn leading_ws(s: Seq<char>) -> nat
    decreases s.len(),
{
    if s.len() > 0 && is_white_space(s[0]) {
        1 + leading_ws(s.drop_first())
    } else {
        0
    }
}

/// Number of trailing white-space characters.
pub open spec fn trailing_ws(s: Seq<char>) -> nat
    decreases s.len(),
{
    if s.len() > 0 && is_white_space(s.last()) {
        1 + trailing_ws(s.drop_last())
    } else {
        0
    }
}

/// `s` without leading and trailing white space.
pub open spec fn trimmed(s: Seq<char>) -> Seq<char> {
    let t = s.skip(leading_ws(s) as int);
    t.take(t.len() - trailing_ws(t))
}

/// Value of a string of ASCII decimal digits; `None` if another character
/// occurs.
pub open spec fn digits_value(s: Seq<char>) -> Option<nat>
    decreases s.len(),
{
    if s.len() == 0 {
        Some(0)
    } else if '0' <= s.last() && s.last() <= '9' {
        match digits_value(s.drop_last()) {
            Some(v) => Some((v * 10 + (s.last() as nat - '0' as nat)) as nat),
            None => None,
        }
    } else {
        None
    }
}

/// `u64` parse of a string: an optional `+`, then at least one ASCII digit,
/// the value within range.
pub open spec fn parse_u64(s: Seq<char>) -> Option<u64> {
    let body = if s.len() > 0 && s[0] == '+' {
        s.drop_first()
    } else {
        s
    };
    if body.len() == 0 {
        None
    } else {
        match digits_value(body) {
            Some(v) => if v <= u64::MAX {
                Some(v as u64)
            } else {
                None
            },
            None => None,
        }
    }
}

/// Whole seconds from `now` (Unix seconds and nanoseconds) until the
/// instant written in RFC 2822 form in `text`, truncated toward zero; `None`
/// if `text` is not such a date.
pub uninterp spec fn rfc2822_seconds_since(text: Seq<char>, now_secs: i64, now_nanos: u32) -> Option<i64>;

/// `chrono::DateTime::parse_from_rfc2822(text)`, then
/// `signed_duration_since(now).num_seconds()` against the UTC instant `now`
/// built by `DateTime::from_timestamp`; `None` when the text does not parse
/// (or `now` is out of chrono's range).
#[verifier::external_body]
fn seconds_until_rfc2822(text: &str, now_secs: i64, now_nanos: u32) -> (r: Option<i64>)
    ensures
        r == rfc2822_seconds_since(text@, now_secs, now_nanos),
{
    let when = chrono::DateTime::parse_from_rfc2822(text).ok()?;
    let now = chrono::DateTime::from_timestamp(now_secs, now_nanos)?;
    Some(when.signed_duration_since(now).num_seconds())
}

/// Wait for an HTTP date `delta` seconds away: zero for a date in the past,
/// capped.
pub open spec fn spec_wait_for_delta(delta: i64) -> u64 {
    if delta <= 0 {
        0
    } else if delta <= MAX_BACKOFF_SECS {
        delta as u64
    } else {
        MAX_BACKOFF_SECS
    }
}

/// Wait for a header value, given what the date parser makes of it.
pub open spec fn spec_retry_after(value: Option<Seq<char>>, date_delta: Option<i64>) -> u64 {
    match value {
        None => DEFAULT_BACKOFF_SECS,
        Some(raw) => {
            let t = trimmed(raw);
            if t.len() == 0 {
                DEFAULT_BACKOFF_SECS
            } else {
                match parse_u64(t) {
                    Some(secs) => if secs <= MAX_BACKOFF_SECS {
                        secs
                    } else {
                        MAX_BACKOFF_SECS
                    },
                    None => match date_delta {
                        Some(d) => spec_wait_for_delta(d),
                        None => DEFAULT_BACKOFF_SECS,
                    },
                }
            }
        },
    }
}

fn is_white_space_char(c: char) -> (r: bool)
    ensures
        r == is_white_space(c),
{
    c == '\t' || c == '\n' || c == '\u{b}' || c == '\u{c}' || c == '\r' || c == ' ' || c == '\u{85}'
        || c == '\u{a0}' || c == '\u{1680}' || ('\u{2000}' <= c && c <= '\u{200a}') || c
        == '\u{2028}' || c == '\u{2029}' || c == '\u{202f}' || c == '\u{205f}' || c == '\u{3000}'
}

proof fn lemma_leading_ws(s: Seq<char>, i: int)
    requires
        0 <= i <= s.len(),
        forall|k: int| 0 <= k < i ==> is_white_space(#[trigger] s[k]),
        i < s.len() ==> !is_white_space(s[i]),
    ensures
        leading_ws(s) == i,
    decreases i,
{
    if i > 0 {
        let t = s.drop_first();
        assert forall|k: int| 0 <= k < i - 1 implies is_white_space(#[trigger] t[k]) by {
            assert(t[k] == s[k + 1]);
        }
        if i - 1 < t.len() {
            assert(t[i - 1] == s[i]);
        }
        lemma_leading_ws(t, i - 1);
    }
}

proof fn lemma_trailing_ws(s: Seq<char>, j: int)
    requires
        0 <= j <= s.len(),
        forall|k: int| j <= k < s.len() ==> is_white_space(#[trigger] s[k]),
        j > 0 ==> !is_white_space(s[j - 1]),
    ensures
        trailing_ws(s) == s.len() - j,
    decreases s.len() - j,
{
    if j < s.len() {
        let t = s.drop_last();
        assert forall|k: int| j <= k < t.len() implies is_white_space(#[trigger] t[k]) by {
            assert(t[k] == s[k]);
        }
        if j > 0 {
            assert(t[j - 1] == s[j - 1]);
        }
        lemma_trailing_ws(t, j);
    }
}

/// `s` without leading and trailing white space.
pub fn trim(s: &str) -> (r: &str)
    ensures
        r@ == trimmed(s@),
{
    let n = s.unicode_len();
    let mut i: usize = 0;
    while i < n && is_white_space_char(s.get_char(i))
        invariant
            n == s@.len(),
            i <= n,
            forall|k: int| 0 <= k < i ==> is_white_space(#[trigger] s@[k]),
        decreases n - i,
    {
        i = i + 1;
    }
    proof {
        lemma_leading_ws(s@, i as int);
    }
    let mut j: usize = n;
    while j > i && is_white_space_char(s.get_char(j - 1))
        invariant
            n == s@.len(),
            i <= j <= n,
            forall|k: int| j <= k < n ==> is_white_space(#[trigger] s@[k]),
        decreases j,
    {
        j = j - 1;
    }
    proof {
        let t = s@.skip(i as int);
        assert forall|k: int| j - i <= k < t.len() implies is_white_space(#[trigger] t[k]) by {
            assert(t[k] == s@[k + i]);
        }
        if j > i {
            assert(t[j - i - 1] == s@[j - 1]);
        }
        lemma_trailing_ws(t, (j - i) as int);
        assert(t.take(j - i) =~= s@.subrange(i as int, j as int));
    }
    s.substring_char(i, j)
}

/// Parse `s` as a `u64` (an optional `+`, then ASCII digits, in range).
pub fn parse_u64_text(s: &str) -> (r: Option<u64>)
    ensures
        r == parse_u64(s@),
{
    let n = s.unicode_len();
    let start: usize = if n > 0 && s.get_char(0) == '+' {
        1
    } else {
        0
    };
    let ghost body = if s@.len() > 0 && s@[0] == '+' {
        s@.drop_first()
    } else {
        s@
    };
    proof {
        assert(body =~= s@.skip(start as int));
    }
    if start == n {
        return None;
    }
    let mut value: u64 = 0;
    let mut i: usize = start;
    while i < n
        invariant
            n == s@.len(),
            start <= i <= n,
            body == s@.skip(start as int),
            body == (if s@.len() > 0 && s@[0] == '+' {
                s@.drop_first()
            } else {
                s@
            }),
            body.len() > 0,
            digits_value(s@.subrange(start as int, i as int)) == Some(value as nat),
        decreases n - i,
    {
        let c = s.get_char(i);
        let ghost pre = s@.subrange(start as int, i as int);
        proof {
            assert(s@.subrange(start as int, i + 1).drop_last() =~= pre);
            assert(s@.subrange(start as int, i + 1).last() == c);
        }
        if !('0' <= c && c <= '9') {
            proof {
                assert(body[(i - start) as int] == c);
                lemma_digits_prefix_fails(body, (i - start) as int);
            }
            return None;
        }
        let d = (c as u32 - '0' as u32) as u64;
        proof {
            assert(body.take((i - start) + 1) =~= s@.subrange(start as int, i + 1));
            assert(digits_value(s@.subrange(start as int, i + 1)) == Some((value as nat * 10 + d) as nat));
        }
        match value.checked_mul(10) {
            Some(t) => match t.checked_add(d) {
                Some(v) => {
                    value = v;
                },
                None => {
                    proof {
                        lemma_digits_prefix_too_big(body, (i - start) as int, (value as nat * 10 + d) as nat);
                    }
                    return None;
                },
            },
            None => {
                proof {
                    lemma_digits_prefix_too_big(body, (i - start) as int, (value as nat * 10 + d) as nat);
                }
                return None;
            },
        }
        i = i + 1;
    }
    proof {
        assert(s@.subrange(start as int, n as int) =~= body);
    }
    Some(value)
}

proof fn lemma_digits_prefix_fails(s: Seq<char>, k: int)
    requires
        0 <= k < s.len(),
        !('0' <= s[k] && s[k] <= '9'),
    ensures
        digits_value(s) is None,
    decreases s.len(),
{
    if k < s.len() - 1 {
        assert(s.drop_last()[k] == s[k]);
        lemma_digits_prefix_fails(s.drop_last(), k);
    }
}

proof fn lemma_digits_prefix_too_big(s: Seq<char>, k: int, v: nat)
    requires
        0 <= k < s.len(),
        digits_value(s.take(k + 1)) == Some(v),
        v > u64::MAX,
    ensures
        digits_value(s) is None || digits_value(s).unwrap() > u64::MAX,
    decreases s.len(),
{
    if k < s.len() - 1 {
        assert(s.drop_last().take(k + 1) =~= s.take(k + 1));
        lemma_digits_prefix_too_big(s.drop_last(), k, v);
        match digits_value(s.drop_last()) {
            Some(w) => {
                assert(w > u64::MAX);
                if '0' <= s.last() && s.last() <= '9' {
                    assert((w * 10 + (s.last() as nat - '0' as nat)) as nat >= w);
                }
            },
            None => {},
        }
    } else {
        assert(s.take(k + 1) =~= s);
    }
}

/// Wait for an HTTP date `delta` seconds away: zero for a date in the past
/// (or now), otherwise the delta capped.
pub fn wait_for_delta(delta: i64) -> (r: u64)
    ensures
        r == spec_wait_for_delta(delta),
{
    if delta <= 0 {
        0
    } else if delta as u64 <= MAX_BACKOFF_SECS {
        delta as u64
    } else {
        MAX_BACKOFF_SECS
    }
}

/// Wait, in seconds, that a `Retry-After` value asks for at `now` (Unix
/// seconds and nanoseconds): the integer seconds (capped), else the
/// seconds until the HTTP date (zero if past, capped), else the default.
pub fn parse_retry_after(header_value: Option<&str>, now_secs: i64, now_nanos: u32) -> (r: u64)
    ensures
        r == spec_retry_after(
            match header_value {
                Some(h) => Some(h@),
                None => None,
            },
            match header_value {
                Some(h) => rfc2822_seconds_since(trimmed(h@), now_secs, now_nanos),
                None => None,
            },
        ),
{
    let raw = match header_value {
        None => {
            return DEFAULT_BACKOFF_SECS;
        },
        Some(raw) => raw,
    };
    let t = trim(raw);
    if t.unicode_len() == 0 {
        return DEFAULT_BACKOFF_SECS;
    }
    match parse_u64_text(t) {
        Some(secs) => {
            if secs <= MAX_BACKOFF_SECS {
                secs
            } else {
                MAX_BACKOFF_SECS
            }
        },
        None => match seconds_until_rfc2822(t, now_secs, now_nanos) {
            Some(d) => wait_for_delta(d),
            None => DEFAULT_BACKOFF_SECS,
        },
    }
}

/// Whatever the header says, the wait never exceeds the cap.
pub proof fn lemma_wait_capped(value: Option<Seq<char>>, date_delta: Option<i64>)
    ensures
        spec_retry_after(value, date_delta) <= MAX_BACKOFF_SECS,
{
}

} // verus!
