//! Symbol lists: the comma-separated list an operator passes on the
//! command line, and the symbols a fixture directory holds (one
//! `<symbol>.json` file each).

use vstd::prelude::*;
use crate::json::{compare_keys, key_lt, lemma_key_lt_transitive, lemma_key_lt_trichotomy, KeyOrder};
use crate::rate_limit::{trim, trimmed};

verus! {

/// Name for what std's `str::to_uppercase` returns: the Unicode upper-case
/// mapping of the text.
pub uninterp spec fn uppercase(s: Seq<char>) -> Seq<char>;

/// `str::to_uppercase` of std. The mapping takes the Unicode tables to
/// state; the contract only names the result, which depends on the text
/// alone.
#[verifier::external_body]
fn to_uppercase(s: &str) -> (r: String)
    ensures
        r@ == uppercase(s@),
{
    s.to_uppercase()
}

// ─── Comma-separated lists ──────────────────────────────────────────────

/// Fields of `s` between commas, as `str::split(',')` yields them: one
/// more field than there are commas.
pub open spec fn comma_fields(s: Seq<char>) -> Seq<Seq<char>>
    decreases s.len(),
{
    if s.len() == 0 {
        seq![Seq::empty()]
    } else {
        let prev = comma_fields(s.drop_last());
        if s.last() == ',' {
            prev.push(Seq::empty())
        } else {
            prev.update(prev.len() - 1, prev.last().push(s.last()))
        }
    }
}

proof fn lemma_comma_fields_nonempty(s: Seq<char>)
    ensures
        comma_fields(s).len() >= 1,
    decreases s.len(),
{
    if s.len() > 0 {
        lemma_comma_fields_nonempty(s.drop_last());
    }
}

/// The symbol a field names: the field without surrounding white space,
/// upper-cased.
pub open spec fn symbol_of_field(f: Seq<char>) -> Seq<char> {
    uppercase(trimmed(f))
}

fn symbol_from_field(s: &str, start: usize, end: usize) -> (r: String)
    requires
        start <= end <= s@.len(),
    ensures
        r@ == symbol_of_field(s@.subrange(start as int, end as int)),
{
    let field = s.substring_char(start, end);
    to_uppercase(trim(field))
}

/// Symbols of a comma-separated list: each field trimmed of white space and
/// upper-cased, in order (an empty field gives an empty symbol).
pub fn parse_symbol_list(list: &str) -> (r: Vec<String>)
    ensures
        r@.len() == comma_fields(list@).len(),
        forall|k: int| 0 <= k < r@.len() ==> #[trigger] r@[k]@ == symbol_of_field(comma_fields(list@)[k]),
{
    let n = list.unicode_len();
    let mut out: Vec<String> = Vec::new();
    let mut start: usize = 0;
    let mut i: usize = 0;
    proof {
        assert(list@.take(0) =~= Seq::<char>::empty());
        assert(list@.subrange(0, 0) =~= Seq::<char>::empty());
    }
    while i < n
        invariant
            n == list@.len(),
            start <= i <= n,
            comma_fields(list@.take(i as int)).len() == out@.len() + 1,
            comma_fields(list@.take(i as int)).last() == list@.subrange(start as int, i as int),
            forall|k: int|
                0 <= k < out@.len() ==> #[trigger] out@[k]@ == symbol_of_field(
                    comma_fields(list@.take(i as int))[k],
                ),
        decreases n - i,
    {
        let ghost prev = comma_fields(list@.take(i as int));
        proof {
            assert(list@.take(i + 1).drop_last() =~= list@.take(i as int));
            assert(list@.take(i + 1).last() == list@[i as int]);
            lemma_comma_fields_nonempty(list@.take(i as int));
        }
        let c = list.get_char(i);
        if c == ',' {
            let sym = symbol_from_field(list, start, i);
            out.push(sym);
            start = i + 1;
            proof {
                assert(comma_fields(list@.take(i + 1)) == prev.push(Seq::<char>::empty()));
                assert(list@.subrange(start as int, i + 1) =~= Seq::<char>::empty());
            }
        } else {
            proof {
                assert(comma_fields(list@.take(i + 1)) == prev.update(
                    prev.len() - 1,
                    prev.last().push(c),
                ));
                assert(list@.subrange(start as int, i + 1) =~= list@.subrange(start as int, i as int).push(c));
            }
        }
        i = i + 1;
    }
    let sym = symbol_from_field(list, start, n);
    out.push(sym);
    proof {
        assert(list@.take(n as int) =~= list@);
    }
    out
}

// ─── Fixture directories ────────────────────────────────────────────────

/// Whether a file name ends with `.json`.
pub open spec fn ends_with_json(s: Seq<char>) -> bool {
    s.len() >= 5 && s.subrange(s.len() - 5, s.len() as int) == ".json"@
}

/// The name with every trailing `.json` removed (as
/// `str::trim_end_matches(".json")` does).
pub open spec fn strip_json_suffixes(s: Seq<char>) -> Seq<char>
    decreases s.len(),
{
    if ends_with_json(s) {
        strip_json_suffixes(s.take(s.len() - 5))
    } else {
        s
    }
}

/// Symbols named by a directory listing, in listing order: one per name
/// ending with `.json`, its stem upper-cased.
pub open spec fn fixture_symbols(names: Seq<Seq<char>>) -> Seq<Seq<char>>
    decreases names.len(),
{
    if names.len() == 0 {
        Seq::empty()
    } else {
        let prev = fixture_symbols(names.drop_last());
        if ends_with_json(names.last()) {
            prev.push(uppercase(strip_json_suffixes(names.last())))
        } else {
            prev
        }
    }
}

/// Text order of strings (by character, a proper prefix first): `a` is not
/// after `b`.
pub open spec fn text_le(a: Seq<char>, b: Seq<char>) -> bool {
    !key_lt(b, a)
}

/// Ascending in text order.
pub open spec fn ascending_texts(s: Seq<Seq<char>>) -> bool {
    forall|i: int, j: int| 0 <= i < j < s.len() ==> text_le(#[trigger] s[i], #[trigger] s[j])
}

fn ends_with_json_exec(s: &str) -> (r: bool)
    ensures
        r == ends_with_json(s@),
{
    let n = s.unicode_len();
    if n < 5 {
        return false;
    }
    let tail = s.substring_char(n - 5, n);
    proof {
        reveal_strlit(".json");
    }
    let r = compare_keys(tail, ".json") == KeyOrder::Equal;
    r
}

fn strip_json_exec(s: &str) -> (r: &str)
    ensures
        r@ == strip_json_suffixes(s@),
    decreases s@.len(),
{
    if ends_with_json_exec(s) {
        let n = s.unicode_len();
        let stem = s.substring_char(0, n - 5);
        proof {
            assert(stem@ =~= s@.take(s@.len() - 5));
        }
        strip_json_exec(stem)
    } else {
        s
    }
}

/// Position at which `x` goes into the ascending `v`: after every element
/// not above it.
fn insertion_point(v: &Vec<String>, x: &String) -> (p: usize)
    requires
        ascending_texts(v@.map_values(|t: String| t@)),
    ensures
        p <= v@.len(),
        forall|k: int| 0 <= k < p ==> text_le(#[trigger] v@[k]@, x@),
        forall|k: int| p <= k < v@.len() ==> key_lt(x@, #[trigger] v@[k]@),
{
    let ghost views = v@.map_values(|t: String| t@);
    let mut p: usize = 0;
    while p < v.len()
        invariant
            p <= v@.len(),
            views == v@.map_values(|t: String| t@),
            ascending_texts(views),
            forall|k: int| 0 <= k < p ==> text_le(#[trigger] v@[k]@, x@),
        decreases v@.len() - p,
    {
        if compare_keys(x.as_str(), v[p].as_str()) == KeyOrder::Less {
            proof {
                assert forall|k: int| p <= k < v@.len() implies key_lt(x@, #[trigger] v@[k]@) by {
                    assert(views[p as int] == v@[p as int]@);
                    assert(views[k] == v@[k]@);
                    if k > p {
                        assert(text_le(views[p as int], views[k]));
                        lemma_key_lt_trichotomy(v@[p as int]@, v@[k]@);
                        if v@[p as int]@ != v@[k]@ {
                            lemma_key_lt_transitive(x@, v@[p as int]@, v@[k]@);
                        }
                    }
                }
            }
            return p;
        }
        p = p + 1;
    }
    p
}

/// Symbols of a fixture directory listing: the names ending with `.json`,
/// every trailing `.json` removed, upper-cased, in ascending text order.
pub fn symbols_from_file_names(names: &[String]) -> (r: Vec<String>)
    ensures
        ascending_texts(r@.map_values(|t: String| t@)),
        r@.map_values(|t: String| t@).to_multiset() == fixture_symbols(
            names@.map_values(|t: String| t@),
        ).to_multiset(),
{
    let ghost all = names@.map_values(|t: String| t@);
    let mut out: Vec<String> = Vec::new();
    let mut i: usize = 0;
    proof {
        assert(all.take(0) =~= Seq::<Seq<char>>::empty());
        assert(out@.map_values(|t: String| t@) =~= Seq::<Seq<char>>::empty());
    }
    while i < names.len()
        invariant
            i <= names@.len(),
            all == names@.map_values(|t: String| t@),
            ascending_texts(out@.map_values(|t: String| t@)),
            out@.map_values(|t: String| t@).to_multiset() == fixture_symbols(all.take(i as int)).to_multiset(),
        decreases names@.len() - i,
    {
        let ghost before = out@.map_values(|t: String| t@);
        proof {
            assert(all.take(i + 1).drop_last() =~= all.take(i as int));
            assert(all.take(i + 1).last() == names@[i as int]@);
        }
        let name = names[i].as_str();
        if ends_with_json_exec(name) {
            let sym = to_uppercase(strip_json_exec(name));
            let p = insertion_point(&out, &sym);
            let ghost old_out = out@;
            out.insert(p, sym);
            proof {
                let f = |t: String| t@;
                let after = out@.map_values(f);
                assert(after =~= before.insert(p as int, sym@));
                broadcast use vstd::seq_lib::to_multiset_build, vstd::seq_lib::to_multiset_insert;
                assert(fixture_symbols(all.take(i + 1)) == fixture_symbols(all.take(i as int)).push(sym@));
                assert forall|a: int, b: int| 0 <= a < b < after.len() implies text_le(
                    #[trigger] after[a],
                    #[trigger] after[b],
                ) by {
                    let x = sym@;
                    let pp = p as int;
                    if a < pp && b < pp {
                        assert(after[a] == before[a] && after[b] == before[b]);
                    } else if a < pp && b == pp {
                        assert(after[a] == old_out[a]@);
                    } else if a < pp && b > pp {
                        assert(after[a] == old_out[a]@ && after[b] == old_out[b - 1]@);
                        assert(text_le(old_out[a]@, x));
                        assert(key_lt(x, old_out[b - 1]@));
                        lemma_key_lt_trichotomy(old_out[a]@, x);
                        lemma_key_lt_trichotomy(old_out[b - 1]@, old_out[a]@);
                        if key_lt(old_out[b - 1]@, old_out[a]@) {
                            if old_out[a]@ == x {
                            } else {
                                lemma_key_lt_transitive(old_out[b - 1]@, old_out[a]@, x);
                            }
                        }
                    } else if a == pp {
                        assert(after[b] == old_out[b - 1]@);
                        lemma_key_lt_trichotomy(x, old_out[b - 1]@);
                    } else {
                        assert(after[a] == before[a - 1] && after[b] == before[b - 1]);
                    }
                }
            }
        } else {
            proof {
                assert(fixture_symbols(all.take(i + 1)) == fixture_symbols(all.take(i as int)));
            }
        }
        i = i + 1;
    }
    proof {
        assert(all.take(names@.len() as int) =~= all);
    }
    out
}

} // verus!
