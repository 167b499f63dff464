//! A JSON value model whose objects keep their members sorted by key,
//! with at most one member per key (a later insert replaces the value),
//! and its compact text form: no whitespace, members in key order, numbers
//! in decimal, and strings as `serde_json` writes them.
//!
//! Keys are ordered lexicographically by code point, which is the order
//! of their UTF-8 bytes.

use vstd::prelude::*;
use crate::tracing_redact::{decimal, push_decimal_u64};

verus! {

// ─── Key order ──────────────────────────────────────────────────────────

/// Lexicographic order on strings by code point.
pub open spec fn key_lt(a: Seq<char>, b: Seq<char>) -> bool
    decreases a.len(),
{
    if a.len() == 0 {
        b.len() > 0
    } else if b.len() == 0 {
        false
    } else if a[0] < b[0] {
        true
    } else if a[0] > b[0] {
        false
    } else {
        key_lt(a.drop_first(), b.drop_first())
    }
}

/// The order is transitive.
pub proof fn lemma_key_lt_transitive(a: Seq<char>, b: Seq<char>, c: Seq<char>)
    requires
        key_lt(a, b),
        key_lt(b, c),
    ensures
        key_lt(a, c),
    decreases a.len(),
{
    if a.len() > 0 && b.len() > 0 && c.len() > 0 && a[0] == b[0] && b[0] == c[0] {
        lemma_key_lt_transitive(a.drop_first(), b.drop_first(), c.drop_first());
    }
}

/// The order is strict and total.
pub proof fn lemma_key_lt_trichotomy(a: Seq<char>, b: Seq<char>)
    ensures
        !key_lt(a, a),
        !(key_lt(a, b) && key_lt(b, a)),
        key_lt(a, b) || a == b || key_lt(b, a),
    decreases a.len(),
{
    if a.len() == 0 && b.len() == 0 {
        assert(a =~= b);
    } else if a.len() > 0 && b.len() > 0 && a[0] == b[0] {
        lemma_key_lt_trichotomy(a.drop_first(), b.drop_first());
        if a.drop_first() == b.drop_first() {
            assert forall|i: int| 0 <= i < a.len() implies a[i] == b[i] by {
                if i > 0 {
                    assert(a[i] == a.drop_first()[i - 1]);
                    assert(b[i] == b.drop_first()[i - 1]);
                }
            }
            assert(a =~= b);
        }
    }
    if a.len() > 0 {
        lemma_key_lt_trichotomy(a.drop_first(), a.drop_first());
    }
}

proof fn lemma_key_lt_common_prefix(a: Seq<char>, b: Seq<char>, i: int)
    requires
        0 <= i <= a.len(),
        i <= b.len(),
        a.take(i) == b.take(i),
    ensures
        key_lt(a, b) == key_lt(a.skip(i), b.skip(i)),
    decreases i,
{
    if i > 0 {
        assert(a[0] == a.take(i)[0]);
        assert(b[0] == b.take(i)[0]);
        assert(a.drop_first().take(i - 1) =~= a.take(i).drop_first());
        assert(b.drop_first().take(i - 1) =~= b.take(i).drop_first());
        lemma_key_lt_common_prefix(a.drop_first(), b.drop_first(), i - 1);
        assert(a.drop_first().skip(i - 1) =~= a.skip(i));
        assert(b.drop_first().skip(i - 1) =~= b.skip(i));
    } else {
        assert(a.skip(0) =~= a);
        assert(b.skip(0) =~= b);
    }
}

/// Result of comparing two keys.
#[derive(Debug, Clone, Copy, PartialEq, Eq, Structural)]
pub enum KeyOrder {
    Less,
    Equal,
    Greater,
}

/// Compare two keys by code point.
pub fn compare_keys(a: &str, b: &str) -> (r: KeyOrder)
    ensures
        (r == KeyOrder::Less) <==> key_lt(a@, b@),
        (r == KeyOrder::Equal) <==> a@ == b@,
        (r == KeyOrder::Greater) <==> key_lt(b@, a@),
{
    proof {
        lemma_key_lt_trichotomy(a@, b@);
    }
    let na = a.unicode_len();
    let nb = b.unicode_len();
    let mut i: usize = 0;
    while i < na && i < nb
        invariant
            na == a@.len(),
            nb == b@.len(),
            i <= na,
            i <= nb,
            a@.take(i as int) == b@.take(i as int),
        decreases na - i,
    {
        let ca = a.get_char(i);
        let cb = b.get_char(i);
        if ca < cb {
            proof {
                lemma_key_lt_common_prefix(a@, b@, i as int);
                lemma_key_lt_common_prefix(b@, a@, i as int);
                assert(a@.skip(i as int)[0] == ca);
                assert(b@.skip(i as int)[0] == cb);
            }
            return KeyOrder::Less;
        }
        if ca > cb {
            proof {
                lemma_key_lt_common_prefix(a@, b@, i as int);
                lemma_key_lt_common_prefix(b@, a@, i as int);
                assert(a@.skip(i as int)[0] == ca);
                assert(b@.skip(i as int)[0] == cb);
            }
            return KeyOrder::Greater;
        }
        proof {
            assert(ca == cb);
            assert(a@.take(i + 1) =~= a@.take(i as int).push(ca));
            assert(b@.take(i + 1) =~= b@.take(i as int).push(cb));
        }
        i = i + 1;
    }
    proof {
        lemma_key_lt_common_prefix(a@, b@, i as int);
        lemma_key_lt_common_prefix(b@, a@, i as int);
    }
    if na < nb {
        KeyOrder::Less
    } else if na > nb {
        KeyOrder::Greater
    } else {
        proof {
            assert(a@ =~= a@.take(i as int));
            assert(b@ =~= b@.take(i as int));
        }
        KeyOrder::Equal
    }
}

// ─── Values ─────────────────────────────────────────────────────────────

/// A JSON value. Numbers are integers.
#[derive(Debug, PartialEq, Eq)]
pub enum JsonValue {
    Null,
    Bool(bool),
    Int(i64),
    UInt(u64),
    Str(String),
    Array(Vec<JsonValue>),
    Object(JsonMap),
}

/// An object: members sorted strictly by key.
#[derive(Debug, PartialEq, Eq)]
pub struct JsonMap {
    entries: Vec<(String, JsonValue)>,
}

/// Whether the members' keys are strictly ascending.
pub open spec fn keys_ascending(s: Seq<(String, JsonValue)>) -> bool {
    forall|i: int, j: int| 0 <= i < j < s.len() ==> key_lt(#[trigger] s[i].0@, #[trigger] s[j].0@)
}

/// Position of `key` among the members, if present.
pub open spec fn key_index(s: Seq<(String, JsonValue)>, key: Seq<char>) -> Option<int> {
    if exists|i: int| 0 <= i < s.len() && #[trigger] s[i].0@ == key {
        Some(choose|i: int| 0 <= i < s.len() && #[trigger] s[i].0@ == key)
    } else {
        None
    }
}

impl JsonMap {
    #[verifier::type_invariant]
    spec fn sorted(self) -> bool {
        keys_ascending(self.entries@)
    }

    /// The members, in key order.
    pub closed spec fn members(&self) -> Seq<(String, JsonValue)> {
        self.entries@
    }

    /// An empty object.
    pub fn new() -> (r: Self)
        ensures
            r.members().len() == 0,
    {
        JsonMap { entries: Vec::new() }
    }

    /// Number of members.
    pub fn len(&self) -> (r: usize)
        ensures
            r == self.members().len(),
    {
        self.entries.len()
    }

    /// Member at position `i` in key order.
    pub fn member(&self, i: usize) -> (r: (&str, &JsonValue))
        requires
            i < self.members().len(),
        ensures
            r.0@ == self.members()[i as int].0@,
            *r.1 == self.members()[i as int].1,
    {
        (self.entries[i].0.as_str(), &self.entries[i].1)
    }

    /// First position whose key is not below `key`.
    fn lower_bound(&self, key: &str) -> (r: usize)
        ensures
            r <= self.entries@.len(),
            forall|i: int| 0 <= i < r ==> key_lt(#[trigger] self.entries@[i].0@, key@),
            r < self.entries@.len() ==> !key_lt(self.entries@[r as int].0@, key@),
    {
        let mut i: usize = 0;
        while i < self.entries.len()
            invariant
                i <= self.entries@.len(),
                forall|k: int| 0 <= k < i ==> key_lt(#[trigger] self.entries@[k].0@, key@),
            decreases self.entries@.len() - i,
        {
            match compare_keys(self.entries[i].0.as_str(), key) {
                KeyOrder::Less => {
                    i = i + 1;
                },
                _ => {
                    return i;
                },
            }
        }
        i
    }

    /// Value of member `key`, if present.
    pub fn get(&self, key: &str) -> (r: Option<&JsonValue>)
        ensures
            r matches Some(v) ==> (key_index(self.members(), key@) matches Some(i) && *v
                == self.members()[i].1),
            r is None ==> key_index(self.members(), key@) is None,
    {
        proof {
            use_type_invariant(self);
        }
        let p = self.lower_bound(key);
        if p < self.entries.len() {
            match compare_keys(self.entries[p].0.as_str(), key) {
                KeyOrder::Equal => {
                    proof {
                        lemma_unique_index(self.entries@, p as int);
                    }
                    return Some(&self.entries[p].1);
                },
                _ => {},
            }
        }
        proof {
            lemma_absent(self.entries@, key@, p as int);
        }
        None
    }

    /// Insert member `key` with `value`, replacing the value when the key
    /// is already present.
    pub fn insert(&mut self, key: String, value: JsonValue)
        ensures
            final(self).members() == spec_map_insert(old(self).members(), key, value),
    {
        proof {
            use_type_invariant(&*self);
        }
        let p = self.lower_bound(key.as_str());
        let mut entries: Vec<(String, JsonValue)> = Vec::new();
        std::mem::swap(&mut entries, &mut self.entries);
        let ghost old_entries = entries@;
        let replace = p < entries.len() && compare_keys(entries[p].0.as_str(), key.as_str())
            == KeyOrder::Equal;
        proof {
            lemma_insert_position(old_entries, key, value, p as int);
        }
        if replace {
            entries.set(p, (key, value));
        } else {
            entries.insert(p, (key, value));
        }
        proof {
            assert(entries@ =~= spec_map_insert(old_entries, key, value));
        }
        self.entries = entries;
    }
}

/// Members after inserting `key` with `value` into sorted members `s`:
/// the value replaces the member with the same key, or the member goes
/// in key order.
pub open spec fn spec_map_insert(s: Seq<(String, JsonValue)>, key: String, value: JsonValue) -> Seq<
    (String, JsonValue),
> {
    let p = spec_lower_bound(s, key@);
    if p < s.len() && s[p].0@ == key@ {
        s.update(p, (key, value))
    } else {
        s.insert(p, (key, value))
    }
}

/// Number of members whose key is below `key`.
pub open spec fn spec_lower_bound(s: Seq<(String, JsonValue)>, key: Seq<char>) -> int
    decreases s.len(),
{
    if s.len() == 0 {
        0
    } else if key_lt(s[0].0@, key) {
        1 + spec_lower_bound(s.drop_first(), key)
    } else {
        0
    }
}

proof fn lemma_lower_bound_is(s: Seq<(String, JsonValue)>, key: Seq<char>, p: int)
    requires
        keys_ascending(s),
        0 <= p <= s.len(),
        forall|i: int| 0 <= i < p ==> key_lt(#[trigger] s[i].0@, key),
        p < s.len() ==> !key_lt(s[p].0@, key),
    ensures
        spec_lower_bound(s, key) == p,
    decreases s.len(),
{
    if s.len() > 0 && p > 0 {
        let t = s.drop_first();
        assert forall|i: int, j: int| 0 <= i < j < t.len() implies key_lt(
            #[trigger] t[i].0@,
            #[trigger] t[j].0@,
        ) by {
            assert(t[i] == s[i + 1]);
            assert(t[j] == s[j + 1]);
        }
        assert forall|i: int| 0 <= i < p - 1 implies key_lt(#[trigger] t[i].0@, key) by {
            assert(t[i] == s[i + 1]);
        }
        if p - 1 < t.len() {
            assert(t[p - 1] == s[p]);
        }
        lemma_key_lt_trichotomy(s[0].0@, key);
        lemma_lower_bound_is(t, key, p - 1);
    }
}

proof fn lemma_unique_index(s: Seq<(String, JsonValue)>, p: int)
    requires
        keys_ascending(s),
        0 <= p < s.len(),
    ensures
        key_index(s, s[p].0@) == Some(p),
{
    let k = s[p].0@;
    assert(s[p].0@ == k);
    let i = choose|i: int| 0 <= i < s.len() && #[trigger] s[i].0@ == k;
    assert forall|j: int| 0 <= j < s.len() && #[trigger] s[j].0@ == k implies j == p by {
        if j != p {
            lemma_key_lt_trichotomy(s[j].0@, s[p].0@);
            if j < p {
                assert(key_lt(s[j].0@, s[p].0@));
            } else {
                assert(key_lt(s[p].0@, s[j].0@));
            }
        }
    }
    if i != p {
        lemma_key_lt_trichotomy(s[i].0@, s[p].0@);
        if i < p {
            assert(key_lt(s[i].0@, s[p].0@));
        } else {
            assert(key_lt(s[p].0@, s[i].0@));
        }
    }
}

proof fn lemma_absent(s: Seq<(String, JsonValue)>, key: Seq<char>, p: int)
    requires
        keys_ascending(s),
        0 <= p <= s.len(),
        forall|i: int| 0 <= i < p ==> key_lt(#[trigger] s[i].0@, key),
        p < s.len() ==> !key_lt(s[p].0@, key) && s[p].0@ != key,
    ensures
        key_index(s, key) is None,
{
    assert forall|i: int| 0 <= i < s.len() implies #[trigger] s[i].0@ != key by {
        lemma_key_lt_trichotomy(s[i].0@, key);
        if i >= p && i > p {
            lemma_key_lt_trichotomy(s[p].0@, key);
            assert(key_lt(s[p].0@, s[i].0@));
            if s[i].0@ == key {
                assert(key_lt(key, s[p].0@) || s[p].0@ == key);
            }
        }
    }
}

proof fn lemma_insert_position(s: Seq<(String, JsonValue)>, key: String, value: JsonValue, p: int)
    requires
        keys_ascending(s),
        0 <= p <= s.len(),
        forall|i: int| 0 <= i < p ==> key_lt(#[trigger] s[i].0@, key@),
        p < s.len() ==> !key_lt(s[p].0@, key@),
    ensures
        spec_lower_bound(s, key@) == p,
        keys_ascending(spec_map_insert(s, key, value)),
{
    lemma_lower_bound_is(s, key@, p);
    let r = spec_map_insert(s, key, value);
    if p < s.len() && s[p].0@ == key@ {
        assert forall|i: int, j: int| 0 <= i < j < r.len() implies key_lt(
            #[trigger] r[i].0@,
            #[trigger] r[j].0@,
        ) by {
            assert(r[i].0@ == s[i].0@);
            assert(r[j].0@ == s[j].0@);
        }
    } else {
        if p < s.len() {
            lemma_key_lt_trichotomy(s[p].0@, key@);
        }
        assert forall|i: int, j: int| 0 <= i < j < r.len() implies key_lt(
            #[trigger] r[i].0@,
            #[trigger] r[j].0@,
        ) by {
            if j < p {
                assert(r[i] == s[i] && r[j] == s[j]);
            } else if j == p {
                assert(r[i] == s[i]);
            } else if i < p {
                assert(r[i] == s[i] && r[j] == s[j - 1]);
                assert(key_lt(s[i].0@, key@));
                assert(key_lt(key@, s[p].0@));
                if j - 1 > p {
                    lemma_key_lt_transitive(key@, s[p].0@, s[j - 1].0@);
                }
                lemma_key_lt_transitive(s[i].0@, key@, s[j - 1].0@);
            } else if i == p {
                assert(r[j] == s[j - 1]);
                if j - 1 > p {
                    lemma_key_lt_transitive(key@, s[p].0@, s[j - 1].0@);
                }
            } else {
                assert(r[i] == s[i - 1] && r[j] == s[j - 1]);
            }
        }
    }
}

// ─── Text ───────────────────────────────────────────────────────────────

/// The JSON string literal that `serde_json` writes for a string: the text
/// in double quotes, with serde_json's escapes.
pub uninterp spec fn quoted(s: Seq<char>) -> Seq<char>;

/// Decimal text of an integer, with a leading `-` when negative.
pub open spec fn int_text(i: int) -> Seq<char> {
    if i < 0 {
        seq!['-'] + decimal((-i) as nat)
    } else {
        decimal(i as nat)
    }
}

/// Members as (key, value text) pairs, in order.
pub open spec fn text_pairs(s: Seq<(String, JsonValue)>) -> Seq<(Seq<char>, Seq<char>)>
    decreases s,
{
    if s.len() == 0 {
        Seq::empty()
    } else {
        text_pairs(s.drop_last()).push((s.last().0@, json_text(s.last().1)))
    }
}

/// Texts of array elements, in order.
pub open spec fn element_texts(s: Seq<JsonValue>) -> Seq<Seq<char>>
    decreases s,
{
    if s.len() == 0 {
        Seq::empty()
    } else {
        element_texts(s.drop_last()).push(json_text(s.last()))
    }
}

/// Compact text of a value: no whitespace, object members in key order.
pub open spec fn json_text(v: JsonValue) -> Seq<char>
    decreases v,
{
    match v {
        JsonValue::Null => seq!['n', 'u', 'l', 'l'],
        JsonValue::Bool(b) => if b {
            seq!['t', 'r', 'u', 'e']
        } else {
            seq!['f', 'a', 'l', 's', 'e']
        },
        JsonValue::Int(i) => int_text(i as int),
        JsonValue::UInt(u) => decimal(u as nat),
        JsonValue::Str(s) => quoted(s@),
        JsonValue::Array(items) => seq!['['] + join_texts(element_texts(items@)) + seq![']'],
        JsonValue::Object(m) => seq!['{'] + members_text(text_pairs(m.members())) + seq!['}'],
    }
}

/// Texts joined with commas.
pub open spec fn join_texts(ts: Seq<Seq<char>>) -> Seq<char>
    decreases ts.len(),
{
    if ts.len() == 0 {
        Seq::empty()
    } else if ts.len() == 1 {
        ts[0]
    } else {
        join_texts(ts.drop_last()) + seq![','] + ts.last()
    }
}

/// Text of one member.
pub open spec fn member_text(key: Seq<char>, value_text: Seq<char>) -> Seq<char> {
    quoted(key) + seq![':'] + value_text
}

/// Member texts joined with commas.
pub open spec fn members_text(ps: Seq<(Seq<char>, Seq<char>)>) -> Seq<char>
    decreases ps.len(),
{
    if ps.len() == 0 {
        Seq::empty()
    } else if ps.len() == 1 {
        member_text(ps[0].0, ps[0].1)
    } else {
        members_text(ps.drop_last()) + seq![','] + member_text(ps.last().0, ps.last().1)
    }
}

// ─── Writer ─────────────────────────────────────────────────────────────

/// `serde_json::to_string` of a string: its JSON string literal. Writing a
/// `str` into serde_json's in-memory buffer does not fail (its documented
/// errors come from a failing `Serialize` impl or non-string map keys), so
/// the error arm is not reached.
#[verifier::external_body]
fn serde_string_literal(s: &str) -> (r: String)
    ensures
        r@ == quoted(s@),
{
    match serde_json::to_string(s) {
        Ok(t) => t,
        Err(_) => String::new(),
    }
}

/// Append the JSON string literal of `s` to `out`.
pub fn write_quoted(s: &str, out: &mut String)
    ensures
        final(out)@ == old(out)@ + quoted(s@),
{
    let lit = serde_string_literal(s);
    out.append(lit.as_str());
}

proof fn lemma_text_pairs_len(s: Seq<(String, JsonValue)>)
    ensures
        text_pairs(s).len() == s.len(),
        forall|i: int|
            0 <= i < s.len() ==> #[trigger] text_pairs(s)[i] == (s[i].0@, json_text(s[i].1)),
    decreases s.len(),
{
    if s.len() > 0 {
        lemma_text_pairs_len(s.drop_last());
    }
}

proof fn lemma_element_texts_len(s: Seq<JsonValue>)
    ensures
        element_texts(s).len() == s.len(),
        forall|i: int| 0 <= i < s.len() ==> #[trigger] element_texts(s)[i] == json_text(s[i]),
    decreases s.len(),
{
    if s.len() > 0 {
        lemma_element_texts_len(s.drop_last());
    }
}

/// Append the compact text of `v` to `out`.
pub fn write_json(v: &JsonValue, out: &mut String)
    ensures
        final(out)@ == old(out)@ + json_text(*v),
    decreases v,
{
    match v {
        JsonValue::Null => {
            proof { reveal_strlit("null"); }
            out.append("null");
        },
        JsonValue::Bool(b) => {
            if *b {
                proof { reveal_strlit("true"); }
                out.append("true");
            } else {
                proof { reveal_strlit("false"); }
                out.append("false");
            }
        },
        JsonValue::Int(i) => {
            if *i < 0 {
                proof { reveal_strlit("-"); }
                out.append("-");
                let mag: u64 = if *i == i64::MIN {
                    0x8000_0000_0000_0000u64
                } else {
                    (-*i) as u64
                };
                push_decimal_u64(out, mag);
            } else {
                push_decimal_u64(out, *i as u64);
            }
        },
        JsonValue::UInt(u) => {
            push_decimal_u64(out, *u);
        },
        JsonValue::Str(s) => {
            write_quoted(s.as_str(), out);
        },
        JsonValue::Array(items) => {
            proof { reveal_strlit("["); reveal_strlit("]"); reveal_strlit(","); }
            let ghost pre = out@;
            out.append("[");
            let mut i: usize = 0;
            while i < items.len()
                invariant
                    i <= items@.len(),
                    *v == JsonValue::Array(*items),
                    out@ == pre + seq!['['] + join_texts(element_texts(items@.take(i as int))),
                decreases items@.len() - i,
            {
                let ghost before = out@;
                proof {
                    reveal_strlit(",");
                }
                if i > 0 {
                    out.append(",");
                }
                proof {
                    broadcast use vstd::std_specs::vec::axiom_vec_index_decreases;

                    assert(decreases_to!(*v => (*v)->Array_0));
                    assert((*v)->Array_0 == *items);
                    assert(decreases_to!(*items => items[i as int]));
                    assert(decreases_to!(*v => items[i as int]));
                }
                write_json(&items[i], out);
                proof {
                    let t = items@.take(i + 1);
                    let ts = element_texts(items@.take(i as int));
                    assert(t.drop_last() =~= items@.take(i as int));
                    assert(t.last() == items@[i as int]);
                    lemma_element_texts_len(items@.take(i as int));
                    assert(element_texts(t) == ts.push(json_text(items@[i as int])));
                    let j = json_text(items@[i as int]);
                    assert(ts.push(j).drop_last() =~= ts);
                    if i == 0 {
                        assert(ts.len() == 0);
                        assert(join_texts(ts) =~= Seq::<char>::empty());
                        assert(join_texts(ts.push(j)) == j);
                        assert(before =~= pre + seq!['[']);
                    } else {
                        assert(join_texts(ts.push(j)) == join_texts(ts) + seq![','] + j);
                    }
                    assert(out@ =~= pre + seq!['['] + join_texts(element_texts(t)));
                }
                i = i + 1;
            }
            out.append("]");
            proof {
                assert(items@.take(items@.len() as int) =~= items@);
            }
        },
        JsonValue::Object(m) => {
            proof { reveal_strlit("{"); reveal_strlit("}"); reveal_strlit(","); reveal_strlit(":"); }
            let ghost pre = out@;
            out.append("{");
            let mut i: usize = 0;
            while i < m.len()
                invariant
                    i <= m.members().len(),
                    *v == JsonValue::Object(*m),
                    out@ == pre + seq!['{'] + members_text(text_pairs(m.members().take(i as int))),
                decreases m.members().len() - i,
            {
                let ghost before = out@;
                proof {
                    reveal_strlit(",");
                    reveal_strlit(":");
                }
                if i > 0 {
                    out.append(",");
                }
                let (k, val) = m.member(i);
                write_quoted(k, out);
                out.append(":");
                proof {
                    broadcast use vstd::std_specs::vec::axiom_vec_index_decreases;

                    assert(decreases_to!(*v => (*v)->Object_0));
                    assert((*v)->Object_0 == *m);
                    assert(decreases_to!(*m => m.entries));
                    assert(decreases_to!(m.entries => m.entries[i as int]));
                    assert(decreases_to!(m.entries[i as int] => m.entries[i as int].1));
                    assert(decreases_to!(*v => m.members()[i as int].1));
                }
                write_json(val, out);
                proof {
                    let t = m.members().take(i + 1);
                    let ps = text_pairs(m.members().take(i as int));
                    let e = m.members()[i as int];
                    assert(t.drop_last() =~= m.members().take(i as int));
                    assert(t.last() == e);
                    lemma_text_pairs_len(m.members().take(i as int));
                    assert(text_pairs(t) == ps.push((e.0@, json_text(e.1))));
                    let q = (e.0@, json_text(e.1));
                    assert(ps.push(q).drop_last() =~= ps);
                    if i == 0 {
                        assert(ps.len() == 0);
                        assert(members_text(ps) =~= Seq::<char>::empty());
                        assert(members_text(ps.push(q)) == member_text(q.0, q.1));
                        assert(before =~= pre + seq!['{']);
                    } else {
                        assert(members_text(ps.push(q)) == members_text(ps) + seq![','] + member_text(q.0, q.1));
                    }
                    assert(out@ =~= pre + seq!['{'] + members_text(text_pairs(t)));
                }
                i = i + 1;
            }
            out.append("}");
            proof {
                assert(m.members().take(m.members().len() as int) =~= m.members());
            }
        },
    }
}

/// Compact text of `v`.
pub fn to_json_string(v: &JsonValue) -> (r: String)
    ensures
        r@ == json_text(*v),
{
    let mut out = String::new();
    write_json(v, &mut out);
    assert(out@ =~= json_text(*v));
    out
}

// ─── Text of an insert ──────────────────────────────────────────────────

/// Number of (key, text) pairs whose key is below `key`.
pub open spec fn text_lower_bound(ps: Seq<(Seq<char>, Seq<char>)>, key: Seq<char>) -> int
    decreases ps.len(),
{
    if ps.len() == 0 {
        0
    } else if key_lt(ps[0].0, key) {
        1 + text_lower_bound(ps.drop_first(), key)
    } else {
        0
    }
}

/// Sorted (key, text) pairs after inserting `key` with `text`: the text
/// replaces the pair with the same key, or the pair goes in key order.
pub open spec fn text_insert(
    ps: Seq<(Seq<char>, Seq<char>)>,
    key: Seq<char>,
    text: Seq<char>,
) -> Seq<(Seq<char>, Seq<char>)> {
    let p = text_lower_bound(ps, key);
    if p < ps.len() && ps[p].0 == key {
        ps.update(p, (key, text))
    } else {
        ps.insert(p, (key, text))
    }
}

/// Sorted pairs after inserting every pair of `qs`, in order.
pub open spec fn text_insert_all(
    ps: Seq<(Seq<char>, Seq<char>)>,
    qs: Seq<(Seq<char>, Seq<char>)>,
) -> Seq<(Seq<char>, Seq<char>)>
    decreases qs.len(),
{
    if qs.len() == 0 {
        ps
    } else {
        let r = text_insert_all(ps, qs.drop_last());
        text_insert(r, qs.last().0, qs.last().1)
    }
}

proof fn lemma_lower_bounds_agree(s: Seq<(String, JsonValue)>, key: Seq<char>)
    ensures
        spec_lower_bound(s, key) == text_lower_bound(text_pairs(s), key),
        0 <= spec_lower_bound(s, key) <= s.len(),
    decreases s.len(),
{
    lemma_text_pairs_len(s);
    if s.len() > 0 {
        let t = s.drop_first();
        lemma_text_pairs_len(t);
        assert(text_pairs(s).drop_first() =~= text_pairs(t)) by {
            assert forall|i: int| 0 <= i < t.len() implies text_pairs(s).drop_first()[i] == text_pairs(t)[i] by {
                assert(t[i] == s[i + 1]);
            }
        }
        lemma_lower_bounds_agree(t, key);
    }
}

/// In text form, inserting into an object inserts the value's text.
pub proof fn lemma_insert_text(s: Seq<(String, JsonValue)>, key: String, value: JsonValue)
    ensures
        text_pairs(spec_map_insert(s, key, value)) == text_insert(
            text_pairs(s),
            key@,
            json_text(value),
        ),
{
    lemma_lower_bounds_agree(s, key@);
    lemma_text_pairs_len(s);
    let r = spec_map_insert(s, key, value);
    lemma_text_pairs_len(r);
    let tr = text_insert(text_pairs(s), key@, json_text(value));
    assert(text_pairs(r) =~= tr);
}

/// A copy of `v` with the same text.
pub fn clone_json(v: &JsonValue) -> (r: JsonValue)
    ensures
        json_text(r) == json_text(*v),
    decreases v,
{
    match v {
        JsonValue::Null => JsonValue::Null,
        JsonValue::Bool(b) => JsonValue::Bool(*b),
        JsonValue::Int(i) => JsonValue::Int(*i),
        JsonValue::UInt(u) => JsonValue::UInt(*u),
        JsonValue::Str(s) => JsonValue::Str(s.clone()),
        JsonValue::Array(items) => {
            let mut out: Vec<JsonValue> = Vec::new();
            let mut i: usize = 0;
            while i < items.len()
                invariant
                    i <= items@.len(),
                    *v == JsonValue::Array(*items),
                    out@.len() == i,
                    element_texts(out@) == element_texts(items@.take(i as int)),
                decreases items@.len() - i,
            {
                proof {
                    broadcast use vstd::std_specs::vec::axiom_vec_index_decreases;

                    assert(decreases_to!(*v => (*v)->Array_0));
                    assert((*v)->Array_0 == *items);
                    assert(decreases_to!(*items => items[i as int]));
                }
                let c = clone_json(&items[i]);
                let ghost before = out@;
                out.push(c);
                proof {
                    assert(out@.drop_last() =~= before);
                    assert(items@.take(i + 1).drop_last() =~= items@.take(i as int));
                }
                i = i + 1;
            }
            proof {
                assert(items@.take(items@.len() as int) =~= items@);
            }
            JsonValue::Array(out)
        },
        JsonValue::Object(m) => {
            proof {
                assert(decreases_to!(*v => (*v)->Object_0));
                assert((*v)->Object_0 == *m);
            }
            JsonValue::Object(clone_map(m))
        },
    }
}

/// A copy of `m` with the same members in text form.
pub fn clone_map(m: &JsonMap) -> (r: JsonMap)
    ensures
        text_pairs(r.members()) == text_pairs(m.members()),
    decreases m,
{
    proof {
        use_type_invariant(m);
    }
    let mut out: Vec<(String, JsonValue)> = Vec::new();
    let mut i: usize = 0;
    while i < m.entries.len()
        invariant
            i <= m.entries@.len(),
            keys_ascending(m.entries@),
            out@.len() == i,
            forall|k: int| 0 <= k < i ==> #[trigger] out@[k].0@ == m.entries@[k].0@,
            text_pairs(out@) == text_pairs(m.entries@.take(i as int)),
        decreases m.entries@.len() - i,
    {
        proof {
            broadcast use vstd::std_specs::vec::axiom_vec_index_decreases;

            assert(decreases_to!(*m => m.entries));
            assert(decreases_to!(m.entries => m.entries[i as int]));
            assert(decreases_to!(m.entries[i as int] => m.entries[i as int].1));
        }
        let k = m.entries[i].0.clone();
        let c = clone_json(&m.entries[i].1);
        let ghost before = out@;
        out.push((k, c));
        proof {
            assert(out@.drop_last() =~= before);
            assert(m.entries@.take(i + 1).drop_last() =~= m.entries@.take(i as int));
        }
        i = i + 1;
    }
    proof {
        assert(m.entries@.take(m.entries@.len() as int) =~= m.entries@);
        assert forall|a: int, b: int| 0 <= a < b < out@.len() implies key_lt(
            #[trigger] out@[a].0@,
            #[trigger] out@[b].0@,
        ) by {
            assert(out@[a].0@ == m.entries@[a].0@);
            assert(out@[b].0@ == m.entries@[b].0@);
        }
    }
    JsonMap { entries: out }
}

impl JsonValue {
    /// Value of member `key` when this is an object holding it.
    pub fn get(&self, key: &str) -> (r: Option<&JsonValue>)
        ensures
            r matches Some(x) ==> (*self matches JsonValue::Object(m) && key_index(
                m.members(),
                key@,
            ) matches Some(i) && *x == m.members()[i].1),
            r is None ==> !(*self matches JsonValue::Object(m) && key_index(m.members(), key@) is Some),
    {
        match self {
            JsonValue::Object(m) => m.get(key),
            _ => None,
        }
    }
}

/// Inserting one more pair after a sequence of inserts.
pub proof fn lemma_insert_all_push(
    ps: Seq<(Seq<char>, Seq<char>)>,
    qs: Seq<(Seq<char>, Seq<char>)>,
    q: (Seq<char>, Seq<char>),
)
    ensures
        text_insert_all(ps, qs.push(q)) == text_insert(text_insert_all(ps, qs), q.0, q.1),
{
    assert(qs.push(q).drop_last() =~= qs);
}

/// The text form of no members is empty.
pub proof fn lemma_text_pairs_empty(s: Seq<(String, JsonValue)>)
    requires
        s.len() == 0,
    ensures
        text_pairs(s) == Seq::<(Seq<char>, Seq<char>)>::empty(),
{
    assert(text_pairs(s) =~= Seq::<(Seq<char>, Seq<char>)>::empty());
}

/// Text form of one more member of a prefix.
pub proof fn lemma_text_pairs_take_step(s: Seq<(String, JsonValue)>, i: int)
    requires
        0 <= i < s.len(),
    ensures
        text_pairs(s.take(i + 1)) == text_pairs(s.take(i)).push((s[i].0@, json_text(s[i].1))),
{
    assert(s.take(i + 1).drop_last() =~= s.take(i));
    assert(s.take(i + 1).last() == s[i]);
}

} // verus!
