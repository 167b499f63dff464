//! Classifications and file names of the per-tick signal record.

use vstd::prelude::*;
use crate::json::{compare_keys, int_text, KeyOrder};
use crate::tracing_redact::{decimal, push_decimal_u64};

verus! {

/// Symbols whose venue oracles are structurally prone to diverge
/// (precious-metal perps).
pub open spec fn is_structural_oracle_symbol(symbol: Seq<char>) -> bool {
    symbol == "XAU"@ || symbol == "XAG"@ || symbol == "PAXG"@
}

/// Oracle-divergence risk of a symbol: `"structural"` for XAU, XAG and
/// PAXG, `"minimal"` otherwise.
pub fn oracle_divergence_risk_for(symbol: &str) -> (r: &'static str)
    ensures
        r@ == (if is_structural_oracle_symbol(symbol@) {
            "structural"@
        } else {
            "minimal"@
        }),
{
    if compare_keys(symbol, "XAU") == KeyOrder::Equal || compare_keys(symbol, "XAG") == KeyOrder::Equal
        || compare_keys(symbol, "PAXG") == KeyOrder::Equal {
        "structural"
    } else {
        "minimal"
    }
}


/// `{:03}` rendering of `m`: its decimal digits, zero-padded to three.
pub open spec fn pad3(m: nat) -> Seq<char> {
    if m < 10 {
        "00"@ + decimal(m)
    } else if m < 100 {
        "0"@ + decimal(m)
    } else {
        decimal(m)
    }
}

/// Stem of the signal file for an instant: the Unix seconds followed by
/// the milliseconds, zero-padded to three digits.
pub open spec fn spec_signal_stem(secs: i64, millis: u32) -> Seq<char> {
    int_text(secs as int) + pad3(millis as nat)
}

/// Append the decimal text of `i` (with `-` when negative).
fn push_int(out: &mut String, i: i64)
    ensures
        final(out)@ == old(out)@ + int_text(i as int),
{
    if i < 0 {
        proof {
            reveal_strlit("-");
        }
        out.append("-");
        let mag: u64 = if i == i64::MIN {
            0x8000_0000_0000_0000u64
        } else {
            (-i) as u64
        };
        push_decimal_u64(out, mag);
        proof {
            assert(old(out)@ + seq!['-'] + decimal(mag as nat) =~= old(out)@ + int_text(i as int));
        }
    } else {
        push_decimal_u64(out, i as u64);
    }
}

fn signal_stem(secs: i64, millis: u32) -> (r: String)
    ensures
        r@ == spec_signal_stem(secs, millis),
{
    let mut out = String::new();
    push_int(&mut out, secs);
    proof {
        reveal_strlit("00");
        reveal_strlit("0");
    }
    if millis < 10 {
        out.append("00");
    } else if millis < 100 {
        out.append("0");
    }
    push_decimal_u64(&mut out, millis as u64);
    proof {
        assert(out@ =~= int_text(secs as int) + pad3(millis as nat));
    }
    out
}

/// Name of the signal file written for the instant `secs` + `millis`.
pub fn signal_file_name(secs: i64, millis: u32) -> (r: String)
    ensures
        r@ == spec_signal_stem(secs, millis) + ".json"@,
{
    let mut out = signal_stem(secs, millis);
    out.append(".json");
    out
}

/// Name of the temporary file the record is written to before it is
/// renamed into place: the stem with `.tmp`.
pub fn signal_temp_file_name(secs: i64, millis: u32) -> (r: String)
    ensures
        r@ == spec_signal_stem(secs, millis) + ".tmp"@,
{
    let mut out = signal_stem(secs, millis);
    out.append(".tmp");
    out
}

} // verus!
