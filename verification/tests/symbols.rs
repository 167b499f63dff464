use funding_bot::symbols::{parse_symbol_list, symbols_from_file_names};

fn strings(v: &[&str]) -> Vec<String> {
    v.iter().map(|s| s.to_string()).collect()
}

#[test]
fn symbol_list_is_trimmed_and_upper_cased() {
    assert_eq!(parse_symbol_list("BTC, eth ,sol"), strings(&["BTC", "ETH", "SOL"]));
    assert_eq!(
        parse_symbol_list("BTC,ETH,SOL,BNB,ARB,AVAX,SUI,XAU,XAG,PAXG"),
        strings(&["BTC", "ETH", "SOL", "BNB", "ARB", "AVAX", "SUI", "XAU", "XAG", "PAXG"])
    );
}

#[test]
fn symbol_list_keeps_empty_fields_like_split() {
    assert_eq!(parse_symbol_list(""), strings(&[""]));
    assert_eq!(parse_symbol_list("a,,b"), strings(&["A", "", "B"]));
    assert_eq!(parse_symbol_list("btc,"), strings(&["BTC", ""]));
    assert_eq!(parse_symbol_list(",\u{a0}xau\t"), strings(&["", "XAU"]));
}

#[test]
fn symbol_list_uses_unicode_upper_case() {
    assert_eq!(parse_symbol_list("straße"), strings(&["STRASSE"]));
}

#[test]
fn symbol_list_matches_split_trim_upper() {
    for list in ["a, b ,c", " x ", ",,", "eth,Btc , sol"] {
        let expected: Vec<String> = list.split(',').map(|s| s.trim().to_uppercase()).collect();
        assert_eq!(parse_symbol_list(list), expected);
    }
}

#[test]
fn fixture_symbols_are_json_stems_sorted() {
    let names = strings(&["eth.json", "BTC.json", "readme.md", "sol.JSON", "xau.json.json", ".json"]);
    assert_eq!(symbols_from_file_names(&names), strings(&["", "BTC", "ETH", "XAU"]));
}

#[test]
fn fixture_symbols_keep_duplicates() {
    let names = strings(&["btc.json", "BTC.json", "arb.json"]);
    assert_eq!(symbols_from_file_names(&names), strings(&["ARB", "BTC", "BTC"]));
    assert!(symbols_from_file_names(&[]).is_empty());
}
