//! Secret redaction for log field values.
//!
//! A field whose name matches one of the reserved sensitive identifiers,
//! compared case-insensitively (ASCII), has its value replaced by
//! `"<redacted:N>"`, where `N` is the value's length in bytes, so logs still
//! show presence against absence.

use vstd::prelude::*;

verus! {

/// ASCII lower-case of a character; any other character is unchanged.
pub open spec fn ascii_lower_char(c: char) -> char {
    if 'A' <= c && c <= 'Z' {
        ((c as u32) + 32) as char
    } else {
        c
    }
}

/// ASCII lower-case of a string.
pub open spec fn ascii_lower(s: Seq<char>) -> Seq<char> {
    s.map_values(|c: char| ascii_lower_char(c))
}

/// The reserved sensitive field names, all lower-case.
pub open spec fn sensitive_names() -> Seq<Seq<char>> {
    seq![
        "api_key"@,
        "api-key"@,
        "apikey"@,
        "signature"@,
        "sig"@,
        "private_key"@,
        "private-key"@,
        "privatekey"@,
        "priv_key"@,
        "secret_key"@,
        "secret-key"@,
        "seed"@,
        "mnemonic"@,
        "password"@,
        "passwd"@,
        "authorization"@,
        "bearer"@,
    ]
}

/// The reserved sensitive field names, all lower-case.
pub fn redacted_field_names() -> (r: Vec<&'static str>)
    ensures
        r@.len() == sensitive_names().len(),
        forall|i: int| 0 <= i < r@.len() ==> #[trigger] r@[i]@ == sensitive_names()[i],
{
    let r = vec![
        "api_key",
        "api-key",
        "apikey",
        "signature",
        "sig",
        "private_key",
        "private-key",
        "privatekey",
        "priv_key",
        "secret_key",
        "secret-key",
        "seed",
        "mnemonic",
        "password",
        "passwd",
        "authorization",
        "bearer",
    ];
    r
}

/// Whether the ASCII lower-case of `name` equals `lower`.
fn lower_equals(name: &str, lower: &str) -> (r: bool)
    ensures
        r == (ascii_lower(name@) == lower@),
{
    let n = name.unicode_len();
    if n != lower.unicode_len() {
        assert(ascii_lower(name@).len() != lower@.len());
        return false;
    }
    let mut i: usize = 0;
    while i < n
        invariant
            n == name@.len(),
            n == lower@.len(),
            i <= n,
            forall|k: int| 0 <= k < i ==> ascii_lower_char(name@[k]) == lower@[k],
        decreases n - i,
    {
        let c = name.get_char(i);
        let l = lower.get_char(i);
        let lc = if 'A' <= c && c <= 'Z' {
            ((c as u8) + 32) as char
        } else {
            c
        };
        if lc != l {
            assert(ascii_lower(name@)[i as int] != lower@[i as int]);
            return false;
        }
        i = i + 1;
    }
    assert(ascii_lower(name@) =~= lower@);
    true
}

/// Whether `name` is a sensitive field name, compared case-insensitively.
pub fn is_sensitive_field(name: &str) -> (r: bool)
    ensures
        r == sensitive_names().contains(ascii_lower(name@)),
{
    let names = redacted_field_names();
    let mut i: usize = 0;
    while i < names.len()
        invariant
            names@.len() == sensitive_names().len(),
            forall|k: int| 0 <= k < names@.len() ==> #[trigger] names@[k]@ == sensitive_names()[k],
            i <= names@.len(),
            forall|k: int| 0 <= k < i ==> sensitive_names()[k] != ascii_lower(name@),
        decreases names@.len() - i,
    {
        if lower_equals(name, names[i]) {
            assert(sensitive_names()[i as int] == ascii_lower(name@));
            return true;
        }
        i = i + 1;
    }
    false
}

/// Sensitivity ignores ASCII case: two names that differ only in the case
/// of ASCII letters are both sensitive or both not.
pub proof fn lemma_sensitivity_ignores_case(a: Seq<char>, b: Seq<char>)
    requires
        ascii_lower(a) == ascii_lower(b),
    ensures
        sensitive_names().contains(ascii_lower(a)) == sensitive_names().contains(ascii_lower(b)),
{
}

/// The redaction text depends on the value's byte length only: values of
/// equal length redact identically, and the text shows the length.
pub proof fn lemma_redaction_shows_length_only(len_a: nat, len_b: nat)
    ensures
        (spec_redaction(len_a) == spec_redaction(len_b)) <==> len_a == len_b,
{
    if spec_redaction(len_a) == spec_redaction(len_b) {
        lemma_decimal_injective(len_a, len_b);
    }
}

proof fn lemma_decimal_injective(a: nat, b: nat)
    requires
        "<redacted:"@ + decimal(a) + ">"@ == "<redacted:"@ + decimal(b) + ">"@,
    ensures
        a == b,
{
    let pa = "<redacted:"@ + decimal(a);
    let pb = "<redacted:"@ + decimal(b);
    assert(pa == (pa + ">"@).subrange(0, pa.len() as int)) by {
        assert(pa =~= (pa + ">"@).subrange(0, pa.len() as int));
    }
    reveal_strlit(">");
    assert((pa + ">"@).len() == (pb + ">"@).len());
    assert(pa.len() == pb.len());
    assert(pb =~= (pb + ">"@).subrange(0, pb.len() as int));
    assert(decimal(a) =~= pa.subrange("<redacted:"@.len() as int, pa.len() as int));
    assert(decimal(b) =~= pb.subrange("<redacted:"@.len() as int, pb.len() as int));
    lemma_decimal_unique(a, b);
}

proof fn lemma_decimal_unique(a: nat, b: nat)
    requires
        decimal(a) == decimal(b),
    ensures
        a == b,
    decreases a,
{
    lemma_decimal_shape(a);
    lemma_decimal_shape(b);
    if a < 10 && b < 10 {
        assert(decimal(a)[0] == digit_char(a));
        assert(decimal(b)[0] == digit_char(b));
    } else if a >= 10 && b >= 10 {
        assert(decimal(a).drop_last() == decimal(a / 10));
        assert(decimal(b).drop_last() == decimal(b / 10));
        assert(decimal(a).last() == digit_char(a % 10));
        assert(decimal(b).last() == digit_char(b % 10));
        lemma_decimal_unique(a / 10, b / 10);
    } else if a < 10 {
        lemma_decimal_len_ge2(b);
    } else {
        lemma_decimal_len_ge2(a);
    }
}

proof fn lemma_decimal_shape(n: nat)
    ensures
        decimal(n).len() >= 1,
        n >= 10 ==> decimal(n) == decimal(n / 10).push(digit_char(n % 10)),
    decreases n,
{
    if n >= 10 {
        lemma_decimal_shape(n / 10);
    }
}

proof fn lemma_decimal_len_ge2(n: nat)
    requires
        n >= 10,
    ensures
        decimal(n).len() >= 2,
{
    lemma_decimal_shape(n / 10);
}

/// Decimal digits of `n`, most significant first, without leading zeros
/// (`"0"` for zero).
pub open spec fn decimal(n: nat) -> Seq<char>
    decreases n,
{
    if n < 10 {
        seq![digit_char(n)]
    } else {
        decimal(n / 10).push(digit_char(n % 10))
    }
}

/// The character of a decimal digit.
pub open spec fn digit_char(d: nat) -> char {
    if d < 10 {
        (('0' as u32) + d) as char
    } else {
        '?'
    }
}

/// The redaction of a value whose byte length is `len`.
pub open spec fn spec_redaction(len: nat) -> Seq<char> {
    "<redacted:"@ + decimal(len) + ">"@
}

fn digit_str(d: usize) -> (r: &'static str)
    requires
        d < 10,
    ensures
        r@ == seq![digit_char(d as nat)],
{
    match d {
        0 => { proof { reveal_strlit("0"); } "0" },
        1 => { proof { reveal_strlit("1"); } "1" },
        2 => { proof { reveal_strlit("2"); } "2" },
        3 => { proof { reveal_strlit("3"); } "3" },
        4 => { proof { reveal_strlit("4"); } "4" },
        5 => { proof { reveal_strlit("5"); } "5" },
        6 => { proof { reveal_strlit("6"); } "6" },
        7 => { proof { reveal_strlit("7"); } "7" },
        8 => { proof { reveal_strlit("8"); } "8" },
        _ => { proof { reveal_strlit("9"); } "9" },
    }
}

/// Append the decimal digits of `n` to `out`.
pub fn push_decimal_u64(out: &mut String, n: u64)
    ensures
        final(out)@ == old(out)@ + decimal(n as nat),
    decreases n,
{
    if n >= 10 {
        push_decimal_u64(out, n / 10);
    }
    out.append(digit_str((n % 10) as usize));
    proof {
        if n >= 10 {
            assert(old(out)@ + decimal(n as nat) =~= old(out)@ + decimal((n / 10) as nat) + seq![digit_char((n % 10) as nat)]);
        } else {
            assert(old(out)@ + decimal(n as nat) =~= old(out)@ + seq![digit_char((n % 10) as nat)]);
        }
    }
}

/// Append the decimal digits of `n` to `out`.
pub fn push_decimal(out: &mut String, n: usize)
    ensures
        final(out)@ == old(out)@ + decimal(n as nat),
{
    push_decimal_u64(out, n as u64);
}

/// Replacement text for the value of a sensitive field: `"<redacted:N>"`
/// with `N` the byte length of `raw`.
pub fn redact_value(raw: &str) -> (r: String)
    ensures
        r@ == spec_redaction(raw.len() as nat),
{
    let mut out = String::from_str("<redacted:");
    push_decimal(&mut out, raw.len());
    out.append(">");
    assert(out@ =~= spec_redaction(raw.len() as nat));
    out
}

} // verus!
