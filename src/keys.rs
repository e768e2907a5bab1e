//! Which pairs a query encodes to, told apart by their keys.
use vstd::prelude::*;

use crate::form::PairText;
use crate::params::QueryFilter;
use crate::params::QueryQuery;
use crate::params::clause_key;
use crate::params::clause_pairs;
use crate::params::clauses_pairs;
use crate::params::condition_key;
use crate::params::condition_pairs;
use crate::params::conditions_pairs;
use crate::params::QueryParams;
use crate::params::clause_field_key;
use crate::params::encoded;
use crate::params::exclude_key;
use crate::params::filter_pairs;
use crate::params::first_operator;
use crate::params::include_key;
use crate::params::number_text;
use crate::params::operator_opt_text;
use crate::params::optional_pair;
use crate::params::preset_opt_text;
use crate::params::profile_opt_text;
use crate::params::repeated_pairs;
use crate::params::scalar_pairs;
use crate::params::sort_pairs;
use crate::params::verbose_text;
use crate::text::decimal;
use crate::text::digit_char;

verus! {

pub open spec fn is_digit(c: char) -> bool {
    '0' <= c <= '9'
}

/// The number that a string of decimal digits stands for.
pub open spec fn digits_value(s: Seq<char>) -> nat
    decreases s.len(),
{
    if s.len() == 0 {
        0
    } else {
        digits_value(s.drop_last()) * 10 + (s.last() as nat - 48) as nat
    }
}

proof fn lemma_digit_char(d: nat)
    requires
        d < 10,
    ensures
        is_digit(digit_char(d)),
        digit_char(d) as nat - 48 == d,
{
}

/// A decimal notation is a non-empty string of digits that stands for its number.
pub proof fn lemma_decimal(n: nat)
    ensures
        decimal(n).len() > 0,
        forall|k: int| 0 <= k < decimal(n).len() ==> is_digit(#[trigger] decimal(n)[k]),
        digits_value(decimal(n)) == n,
    decreases n,
{
    if n < 10 {
        lemma_digit_char(n);
        assert(decimal(n).drop_last() =~= seq![]);
        assert(digits_value(seq![]) == 0);
        assert(decimal(n).last() == digit_char(n));
        assert(digits_value(decimal(n)) == n);
    } else {
        lemma_decimal(n / 10);
        lemma_digit_char(n % 10);
        assert(decimal(n).drop_last() =~= decimal(n / 10));
        assert(n == (n / 10) * 10 + n % 10) by (nonlinear_arith);
        assert(decimal(n).last() == digit_char(n % 10));
        assert(digits_value(decimal(n)) == digits_value(decimal(n / 10)) * 10 + n % 10);
    }
}

/// A key made of a prefix, a position in decimal, and a rest that starts with `]`.
pub open spec fn indexed_key(prefix: Seq<char>, i: nat, rest: Seq<char>) -> Seq<char> {
    prefix + decimal(i) + rest
}

/// Two such keys with the same prefix are equal only with the same position and rest.
pub proof fn lemma_indexed_key_injective(
    p: Seq<char>,
    i: nat,
    s: Seq<char>,
    i2: nat,
    s2: Seq<char>,
)
    requires
        s.len() > 0,
        s2.len() > 0,
        s[0] == ']',
        s2[0] == ']',
        indexed_key(p, i, s) == indexed_key(p, i2, s2),
    ensures
        i == i2,
        s == s2,
{
    let a = decimal(i);
    let b = decimal(i2);
    let pl = p.len() as int;
    let al = a.len() as int;
    let bl = b.len() as int;
    let k1 = indexed_key(p, i, s);
    let k2 = indexed_key(p, i2, s2);
    lemma_decimal(i);
    lemma_decimal(i2);
    if a.len() < b.len() {
        assert(k1[pl + al] == s[0]);
        assert(k2[pl + al] == b[al]);
        assert(false);
    } else if b.len() < a.len() {
        assert(k2[pl + bl] == s2[0]);
        assert(k1[pl + bl] == a[bl]);
        assert(false);
    }
    assert(a =~= k1.subrange(pl, pl + al));
    assert(b =~= k2.subrange(pl, pl + bl));
    assert(s =~= k1.skip(pl + al));
    assert(s2 =~= k2.skip(pl + bl));
}

/// `ps` holds a pair with key `k`.
pub open spec fn has_key(ps: Seq<PairText>, k: Seq<char>) -> bool {
    exists|m: int| 0 <= m < ps.len() && (#[trigger] ps[m]).0 == k
}

pub proof fn lemma_has_key_concat(a: Seq<PairText>, b: Seq<PairText>, k: Seq<char>)
    ensures
        has_key(a + b, k) <==> has_key(a, k) || has_key(b, k),
{
    if has_key(a + b, k) {
        let m = choose|m: int| 0 <= m < (a + b).len() && (#[trigger] (a + b)[m]).0 == k;
        if m < a.len() {
            assert(a[m] == (a + b)[m]);
        } else {
            assert(b[m - a.len()] == (a + b)[m]);
        }
    }
    if has_key(a, k) {
        let m = choose|m: int| 0 <= m < a.len() && (#[trigger] a[m]).0 == k;
        assert((a + b)[m] == a[m]);
    }
    if has_key(b, k) {
        let m = choose|m: int| 0 <= m < b.len() && (#[trigger] b[m]).0 == k;
        assert((a + b)[a.len() + m] == b[m]);
    }
}

proof fn lemma_no_key_by_char(ps: Seq<PairText>, k: Seq<char>, pos: int)
    requires
        0 <= pos < k.len(),
        forall|m: int| 0 <= m < ps.len() ==> (#[trigger] ps[m]).0.len() > pos && ps[m].0[pos] != k[pos],
    ensures
        !has_key(ps, k),
{
}

/// The rest, after `query[` and the position, of the key of the `m`-th pair of a clause.
pub open spec fn clause_rest(c: QueryQuery, m: int) -> Seq<char> {
    if m == 0 {
        "][value]"@
    } else if m <= c.fields@.len() {
        "][fields]["@ + decimal((m - 1) as nat) + "]"@
    } else {
        "][operator]"@
    }
}

proof fn lemma_clause_pair_keys(i: nat, c: QueryQuery)
    ensures
        forall|m: int|
            0 <= m < clause_pairs(i, c).len() ==> (#[trigger] clause_pairs(i, c)[m]).0 == clause_key(
                i,
                clause_rest(c, m),
            ) && clause_rest(c, m).len() > 0 && clause_rest(c, m)[0] == ']',
{
    reveal_strlit("][value]");
    reveal_strlit("][fields][");
    reveal_strlit("][operator]");
    let ps = clause_pairs(i, c);
    let n = c.fields@.len() as int;
    assert forall|m: int| 0 <= m < ps.len() implies (#[trigger] ps[m]).0 == clause_key(i, clause_rest(c, m))
        && clause_rest(c, m).len() > 0 && clause_rest(c, m)[0] == ']' by {
        if 1 <= m <= n {
            assert(clause_key(i, clause_rest(c, m)) =~= "query["@ + decimal(i) + ("][fields]["@ + decimal((m - 1) as nat) + "]"@));
        }
    }
}

/// The rest, after `filter[conditions][` and the position, of the key of the
/// `m`-th pair of a condition.
pub open spec fn condition_rest(f: QueryFilter, m: int) -> Seq<char> {
    if m == 0 {
        "][field]"@
    } else if m == 1 {
        "][value][]"@
    } else if m == 2 && f.negate {
        "][negate]"@
    } else {
        "][operator]"@
    }
}

proof fn lemma_condition_pair_keys(i: nat, f: QueryFilter)
    ensures
        forall|m: int|
            0 <= m < condition_pairs(i, f).len() ==> (#[trigger] condition_pairs(i, f)[m]).0
                == condition_key(i, condition_rest(f, m)) && condition_rest(f, m).len() > 0
                && condition_rest(f, m)[0] == ']',
{
    reveal_strlit("][field]");
    reveal_strlit("][value][]");
    reveal_strlit("][negate]");
    reveal_strlit("][operator]");
}

/// Any pair whose key names clause `i` comes from the clause at position `i`.
pub proof fn lemma_clause_key_source(qs: Seq<QueryQuery>, i: nat, s: Seq<char>)
    requires
        s.len() > 0,
        s[0] == ']',
        has_key(clauses_pairs(qs), clause_key(i, s)),
    ensures
        i < qs.len(),
        has_key(clause_pairs(i, qs[i as int]), clause_key(i, s)),
    decreases qs.len(),
{
    let k = clause_key(i, s);
    if qs.len() == 0 {
        assert(clauses_pairs(qs) =~= seq![]);
    } else {
        let n = (qs.len() - 1) as nat;
        let a = clauses_pairs(qs.drop_last());
        let b = clause_pairs(n, qs.last());
        lemma_has_key_concat(a, b, k);
        if has_key(a, k) {
            lemma_clause_key_source(qs.drop_last(), i, s);
            assert(qs.drop_last()[i as int] == qs[i as int]);
        } else {
            let m = choose|m: int| 0 <= m < b.len() && (#[trigger] b[m]).0 == k;
            lemma_clause_pair_keys(n, qs.last());
            assert(b[m].0 == clause_key(n, clause_rest(qs.last(), m)));
            lemma_indexed_key_injective("query["@, i, s, n, clause_rest(qs.last(), m));
        }
    }
}

/// Any pair whose key names condition `i` comes from the condition at position `i`.
pub proof fn lemma_condition_key_source(fs: Seq<QueryFilter>, i: nat, s: Seq<char>)
    requires
        s.len() > 0,
        s[0] == ']',
        has_key(conditions_pairs(fs), condition_key(i, s)),
    ensures
        i < fs.len(),
        has_key(condition_pairs(i, fs[i as int]), condition_key(i, s)),
    decreases fs.len(),
{
    let k = condition_key(i, s);
    if fs.len() == 0 {
        assert(conditions_pairs(fs) =~= seq![]);
    } else {
        let n = (fs.len() - 1) as nat;
        let a = conditions_pairs(fs.drop_last());
        let b = condition_pairs(n, fs.last());
        lemma_has_key_concat(a, b, k);
        if has_key(a, k) {
            lemma_condition_key_source(fs.drop_last(), i, s);
            assert(fs.drop_last()[i as int] == fs[i as int]);
        } else {
            let m = choose|m: int| 0 <= m < b.len() && (#[trigger] b[m]).0 == k;
            lemma_condition_pair_keys(n, fs.last());
            assert(b[m].0 == condition_key(n, condition_rest(fs.last(), m)));
            lemma_indexed_key_injective("filter[conditions]["@, i, s, n, condition_rest(fs.last(), m));
        }
    }
}

/// Every pair of the clause at position `i` is among the pairs of all clauses.
pub proof fn lemma_clause_contained(qs: Seq<QueryQuery>, i: nat)
    requires
        i < qs.len(),
    ensures
        forall|m: int|
            0 <= m < clause_pairs(i, qs[i as int]).len() ==> clauses_pairs(qs).contains(
                #[trigger] clause_pairs(i, qs[i as int])[m],
            ),
    decreases qs.len(),
{
    let n = (qs.len() - 1) as nat;
    let a = clauses_pairs(qs.drop_last());
    let b = clause_pairs(n, qs.last());
    assert(clauses_pairs(qs) == a + b);
    if i == n {
        assert forall|m: int| 0 <= m < b.len() implies clauses_pairs(qs).contains(#[trigger] b[m]) by {
            assert((a + b)[a.len() + m] == b[m]);
        }
    } else {
        lemma_clause_contained(qs.drop_last(), i);
        assert(qs.drop_last()[i as int] == qs[i as int]);
        let c = clause_pairs(i, qs[i as int]);
        assert forall|m: int| 0 <= m < c.len() implies clauses_pairs(qs).contains(#[trigger] c[m]) by {
            assert(a.contains(c[m]));
            let x = choose|x: int| 0 <= x < a.len() && a[x] == c[m];
            assert((a + b)[x] == a[x]);
        }
    }
}

/// Every pair of the condition at position `i` is among the pairs of all conditions.
pub proof fn lemma_condition_contained(fs: Seq<QueryFilter>, i: nat)
    requires
        i < fs.len(),
    ensures
        forall|m: int|
            0 <= m < condition_pairs(i, fs[i as int]).len() ==> conditions_pairs(fs).contains(
                #[trigger] condition_pairs(i, fs[i as int])[m],
            ),
    decreases fs.len(),
{
    let n = (fs.len() - 1) as nat;
    let a = conditions_pairs(fs.drop_last());
    let b = condition_pairs(n, fs.last());
    assert(conditions_pairs(fs) == a + b);
    if i == n {
        assert forall|m: int| 0 <= m < b.len() implies conditions_pairs(fs).contains(#[trigger] b[m]) by {
            assert((a + b)[a.len() + m] == b[m]);
        }
    } else {
        lemma_condition_contained(fs.drop_last(), i);
        assert(fs.drop_last()[i as int] == fs[i as int]);
        let c = condition_pairs(i, fs[i as int]);
        assert forall|m: int| 0 <= m < c.len() implies conditions_pairs(fs).contains(#[trigger] c[m]) by {
            assert(a.contains(c[m]));
            let x = choose|x: int| 0 <= x < a.len() && a[x] == c[m];
            assert((a + b)[x] == a[x]);
        }
    }
}

proof fn lemma_contains_has_key(ps: Seq<PairText>, p: PairText)
    requires
        ps.contains(p),
    ensures
        has_key(ps, p.0),
{
    let m = choose|m: int| 0 <= m < ps.len() && ps[m] == p;
    assert(ps[m].0 == p.0);
}

proof fn lemma_contains_concat(a: Seq<PairText>, b: Seq<PairText>, p: PairText)
    ensures
        a.contains(p) ==> (a + b).contains(p),
        b.contains(p) ==> (a + b).contains(p),
{
    if a.contains(p) {
        let m = choose|m: int| 0 <= m < a.len() && a[m] == p;
        assert((a + b)[m] == p);
    }
    if b.contains(p) {
        let m = choose|m: int| 0 <= m < b.len() && b[m] == p;
        assert((a + b)[a.len() + m] == p);
    }
}

proof fn lemma_optional_key(key: Seq<char>, v: Option<Seq<char>>, k: Seq<char>)
    ensures
        has_key(optional_pair(key, v), k) <==> v is Some && key == k,
{
    if v is Some {
        assert(optional_pair(key, v)[0].0 == key);
    }
}

proof fn lemma_repeated_key(key: Seq<char>, items: Seq<String>, k: Seq<char>)
    ensures
        has_key(repeated_pairs(key, items), k) <==> items.len() > 0 && key == k,
{
    if items.len() > 0 {
        assert(repeated_pairs(key, items)[0].0 == key);
    }
}

/// The pairs of `encoded(q)`, section by section.
proof fn lemma_encoded_key(q: QueryParams, k: Seq<char>)
    ensures
        has_key(encoded(q), k) <==> has_key(scalar_pairs(q), k) || has_key(
            repeated_pairs(include_key(), q.include_fields@),
            k,
        ) || has_key(repeated_pairs(exclude_key(), q.exclude_fields@), k) || has_key(
            clauses_pairs(q.query@),
            k,
        ) || has_key(filter_pairs(q.filter@), k) || has_key(sort_pairs(q.sort@), k),
{
    let scal = scalar_pairs(q);
    let incs = repeated_pairs(include_key(), q.include_fields@);
    let excs = repeated_pairs(exclude_key(), q.exclude_fields@);
    let cls = clauses_pairs(q.query@);
    let flt = filter_pairs(q.filter@);
    let srt = sort_pairs(q.sort@);
    lemma_has_key_concat(scal, incs, k);
    lemma_has_key_concat(scal + incs, excs, k);
    lemma_has_key_concat(scal + incs + excs, cls, k);
    lemma_has_key_concat(scal + incs + excs + cls, flt, k);
    lemma_has_key_concat(scal + incs + excs + cls + flt, srt, k);
}

proof fn lemma_encoded_contains(q: QueryParams, p: PairText)
    ensures
        clauses_pairs(q.query@).contains(p) ==> encoded(q).contains(p),
        conditions_pairs(q.filter@).contains(p) ==> encoded(q).contains(p),
{
    let scal = scalar_pairs(q);
    let incs = repeated_pairs(include_key(), q.include_fields@);
    let excs = repeated_pairs(exclude_key(), q.exclude_fields@);
    let cls = clauses_pairs(q.query@);
    let head = optional_pair("filter[operator]"@, operator_opt_text(first_operator(q.filter@)));
    let c = conditions_pairs(q.filter@);
    let flt = filter_pairs(q.filter@);
    let srt = sort_pairs(q.sort@);
    lemma_contains_concat(scal + incs + excs, cls, p);
    lemma_contains_concat(head, c, p);
    lemma_contains_concat(scal + incs + excs + cls, flt, p);
    lemma_contains_concat(scal + incs + excs + cls + flt, srt, p);
}

proof fn lemma_clauses_heads(qs: Seq<QueryQuery>)
    ensures
        forall|m: int|
            0 <= m < clauses_pairs(qs).len() ==> (#[trigger] clauses_pairs(qs)[m]).0.len() > 2
                && clauses_pairs(qs)[m].0[0] == 'q',
    decreases qs.len(),
{
    reveal_strlit("query[");
    if qs.len() > 0 {
        let n = (qs.len() - 1) as nat;
        let a = clauses_pairs(qs.drop_last());
        let b = clause_pairs(n, qs.last());
        lemma_clauses_heads(qs.drop_last());
        lemma_clause_pair_keys(n, qs.last());
        assert forall|m: int| 0 <= m < (a + b).len() implies (#[trigger] (a + b)[m]).0.len() > 2 && (a
            + b)[m].0[0] == 'q' by {
            if m >= a.len() {
                assert((a + b)[m] == b[m - a.len()]);
                assert(b[m - a.len()].0[0] == "query["@[0]);
            } else {
                assert((a + b)[m] == a[m]);
            }
        }
    }
}

proof fn lemma_conditions_heads(fs: Seq<QueryFilter>)
    ensures
        forall|m: int|
            0 <= m < conditions_pairs(fs).len() ==> (#[trigger] conditions_pairs(fs)[m]).0.len() > 7
                && conditions_pairs(fs)[m].0[0] == 'f' && conditions_pairs(fs)[m].0[2] == 'l'
                && conditions_pairs(fs)[m].0[7] == 'c',
    decreases fs.len(),
{
    reveal_strlit("filter[conditions][");
    if fs.len() > 0 {
        let n = (fs.len() - 1) as nat;
        let a = conditions_pairs(fs.drop_last());
        let b = condition_pairs(n, fs.last());
        lemma_conditions_heads(fs.drop_last());
        lemma_condition_pair_keys(n, fs.last());
        let pre = "filter[conditions]["@;
        assert forall|m: int| 0 <= m < (a + b).len() implies (#[trigger] (a + b)[m]).0.len() > 7 && (a
            + b)[m].0[0] == 'f' && (a + b)[m].0[2] == 'l' && (a + b)[m].0[7] == 'c' by {
            if m >= a.len() {
                assert((a + b)[m] == b[m - a.len()]);
                assert(b[m - a.len()].0[0] == pre[0]);
                assert(b[m - a.len()].0[2] == pre[2]);
                assert(b[m - a.len()].0[7] == pre[7]);
            } else {
                assert((a + b)[m] == a[m]);
            }
        }
    }
}

proof fn lemma_filter_heads(fs: Seq<QueryFilter>)
    ensures
        forall|m: int|
            0 <= m < filter_pairs(fs).len() ==> (#[trigger] filter_pairs(fs)[m]).0.len() > 7
                && filter_pairs(fs)[m].0[0] == 'f' && filter_pairs(fs)[m].0[2] == 'l',
{
    reveal_strlit("filter[operator]");
    lemma_conditions_heads(fs);
    let head = optional_pair("filter[operator]"@, operator_opt_text(first_operator(fs)));
    let c = conditions_pairs(fs);
    assert forall|m: int| 0 <= m < (head + c).len() implies (#[trigger] (head + c)[m]).0.len() > 7 && (
    head + c)[m].0[0] == 'f' && (head + c)[m].0[2] == 'l' by {
        if m >= head.len() {
            assert((head + c)[m] == c[m - head.len()]);
        } else {
            assert((head + c)[m] == head[m]);
        }
    }
}

proof fn lemma_scalar_heads(q: QueryParams)
    ensures
        forall|m: int|
            0 <= m < scalar_pairs(q).len() ==> (#[trigger] scalar_pairs(q)[m]).0.len() > 2 && (
            scalar_pairs(q)[m].0[0] == 'v' || scalar_pairs(q)[m].0[0] == 'l' || scalar_pairs(q)[m].0[0]
                == 'o' || scalar_pairs(q)[m].0[0] == 'p'),
{
    reveal_strlit("verbose");
    reveal_strlit("limit");
    reveal_strlit("offset");
    reveal_strlit("profile");
    reveal_strlit("preset");
    let o_verbose = optional_pair("verbose"@, verbose_text(q.verbose));
    let o_limit = optional_pair("limit"@, number_text(q.limit));
    let o_offset = optional_pair("offset"@, number_text(q.offset));
    let o_profile = optional_pair("profile"@, profile_opt_text(q.profile));
    let o_preset = optional_pair("preset"@, preset_opt_text(q.preset));
    let all = o_verbose + o_limit + o_offset + o_profile + o_preset;
    assert forall|m: int| 0 <= m < all.len() implies (#[trigger] all[m]).0.len() > 2 && (all[m].0[0]
        == 'v' || all[m].0[0] == 'l' || all[m].0[0] == 'o' || all[m].0[0] == 'p') by {
        let a4 = o_verbose + o_limit + o_offset + o_profile;
        let a3 = o_verbose + o_limit + o_offset;
        let a2 = o_verbose + o_limit;
        if m >= a4.len() {
            assert(all[m] == o_preset[m - a4.len()]);
        } else if m >= a3.len() {
            assert(all[m] == o_profile[m - a3.len()]);
        } else if m >= a2.len() {
            assert(all[m] == o_offset[m - a2.len()]);
        } else if m >= o_verbose.len() {
            assert(all[m] == o_limit[m - o_verbose.len()]);
        } else {
            assert(all[m] == o_verbose[m]);
        }
    }
}

proof fn lemma_first_operator_some(fs: Seq<QueryFilter>)
    ensures
        first_operator(fs) is Some <==> exists|i: int|
            0 <= i < fs.len() && (#[trigger] fs[i]).operator is Some,
    decreases fs.len(),
{
    if fs.len() > 0 {
        lemma_first_operator_some(fs.drop_last());
        if exists|i: int| 0 <= i < fs.drop_last().len() && (#[trigger] fs.drop_last()[i]).operator is Some {
            let i = choose|i: int| 0 <= i < fs.drop_last().len() && (#[trigger] fs.drop_last()[i]).operator is Some;
            assert(fs[i] == fs.drop_last()[i]);
        }
        if exists|i: int| 0 <= i < fs.len() && (#[trigger] fs[i]).operator is Some {
            let i = choose|i: int| 0 <= i < fs.len() && (#[trigger] fs[i]).operator is Some;
            if i < fs.len() - 1 {
                assert(fs[i] == fs.drop_last()[i]);
            }
        }
    }
}

proof fn lemma_other_sections(q: QueryParams, k: Seq<char>)
    requires
        k.len() > 2,
    ensures
        k[0] != 'v' && k[0] != 'l' && k[0] != 'o' && k[0] != 'p' ==> !has_key(scalar_pairs(q), k),
        k[0] != 'q' ==> !has_key(clauses_pairs(q.query@), k),
        k[0] != 'f' || k[2] != 'l' ==> !has_key(filter_pairs(q.filter@), k),
        has_key(repeated_pairs(include_key(), q.include_fields@), k) <==> q.include_fields@.len() > 0
            && k == include_key(),
        has_key(repeated_pairs(exclude_key(), q.exclude_fields@), k) <==> q.exclude_fields@.len() > 0
            && k == exclude_key(),
        has_key(sort_pairs(q.sort@), k) <==> q.sort@.len() > 0 && k == "sort[]"@,
{
    lemma_scalar_heads(q);
    lemma_clauses_heads(q.query@);
    lemma_filter_heads(q.filter@);
    lemma_repeated_key(include_key(), q.include_fields@, k);
    lemma_repeated_key(exclude_key(), q.exclude_fields@, k);
    if q.sort@.len() > 0 {
        assert(sort_pairs(q.sort@)[0].0 == "sort[]"@);
    }
    if k[0] != 'q' {
        lemma_no_key_by_char(clauses_pairs(q.query@), k, 0);
    }
    if k[0] != 'f' {
        lemma_no_key_by_char(filter_pairs(q.filter@), k, 0);
    } else if k[2] != 'l' {
        lemma_no_key_by_char(filter_pairs(q.filter@), k, 2);
    }
    if k[0] != 'v' && k[0] != 'l' && k[0] != 'o' && k[0] != 'p' {
        lemma_no_key_by_char(scalar_pairs(q), k, 0);
    }
}

proof fn lemma_scalar_section(q: QueryParams, k: Seq<char>)
    ensures
        has_key(scalar_pairs(q), k) <==> (q.verbose is Some && k == "verbose"@) || (q.limit is Some
            && k == "limit"@) || (q.offset is Some && k == "offset"@) || (q.profile is Some && k
            == "profile"@) || (q.preset is Some && k == "preset"@),
{
    let o_verbose = optional_pair("verbose"@, verbose_text(q.verbose));
    let o_limit = optional_pair("limit"@, number_text(q.limit));
    let o_offset = optional_pair("offset"@, number_text(q.offset));
    let o_profile = optional_pair("profile"@, profile_opt_text(q.profile));
    let o_preset = optional_pair("preset"@, preset_opt_text(q.preset));
    lemma_optional_key("verbose"@, verbose_text(q.verbose), k);
    lemma_optional_key("limit"@, number_text(q.limit), k);
    lemma_optional_key("offset"@, number_text(q.offset), k);
    lemma_optional_key("profile"@, profile_opt_text(q.profile), k);
    lemma_optional_key("preset"@, preset_opt_text(q.preset), k);
    lemma_has_key_concat(o_verbose, o_limit, k);
    lemma_has_key_concat(o_verbose + o_limit, o_offset, k);
    lemma_has_key_concat(o_verbose + o_limit + o_offset, o_profile, k);
    lemma_has_key_concat(o_verbose + o_limit + o_offset + o_profile, o_preset, k);
}

proof fn lemma_literal_keys_differ()
    ensures
        "verbose"@ != "limit"@,
        "verbose"@ != "offset"@,
        "verbose"@ != "profile"@,
        "verbose"@ != "preset"@,
        "limit"@ != "offset"@,
        "limit"@ != "profile"@,
        "limit"@ != "preset"@,
        "offset"@ != "profile"@,
        "offset"@ != "preset"@,
        "profile"@ != "preset"@,
        "verbose"@ != include_key() && "limit"@ != include_key() && "offset"@ != include_key(),
        "profile"@ != include_key() && "preset"@ != include_key() && "sort[]"@ != include_key(),
        "verbose"@ != exclude_key() && "limit"@ != exclude_key() && "offset"@ != exclude_key(),
        "profile"@ != exclude_key() && "preset"@ != exclude_key() && "sort[]"@ != exclude_key(),
        "verbose"@ != "sort[]"@ && "limit"@ != "sort[]"@ && "offset"@ != "sort[]"@,
        "profile"@ != "sort[]"@ && "preset"@ != "sort[]"@,
        include_key() != exclude_key(),
        "filter[operator]"@ != include_key() && "filter[operator]"@ != exclude_key(),
        "filter[operator]"@ != "sort[]"@,
        "verbose"@.len() > 2 && "verbose"@[0] == 'v',
        "limit"@.len() > 2 && "limit"@[0] == 'l',
        "offset"@.len() > 2 && "offset"@[0] == 'o',
        "profile"@.len() > 2 && "profile"@[0] == 'p',
        "preset"@.len() > 2 && "preset"@[0] == 'p',
        "sort[]"@.len() > 2 && "sort[]"@[0] == 's',
        include_key().len() > 2 && include_key()[0] == 'f' && include_key()[2] == 'e',
        exclude_key().len() > 2 && exclude_key()[0] == 'f' && exclude_key()[2] == 'e',
        "filter[operator]"@.len() > 7 && "filter[operator]"@[0] == 'f' && "filter[operator]"@[2]
            == 'l' && "filter[operator]"@[7] == 'o',
{
    reveal_strlit("verbose");
    reveal_strlit("limit");
    reveal_strlit("offset");
    reveal_strlit("profile");
    reveal_strlit("preset");
    reveal_strlit("fields[include][]");
    reveal_strlit("fields[exclude][]");
    reveal_strlit("sort[]");
    reveal_strlit("filter[operator]");
    assert("verbose"@[1] != "limit"@[1]);
    assert("verbose"@[0] != "offset"@[0] && "verbose"@[0] != "profile"@[0] && "verbose"@[0] != "preset"@[0]);
    assert("limit"@[0] != "offset"@[0] && "limit"@[0] != "profile"@[0] && "limit"@[0] != "preset"@[0]);
    assert("offset"@[0] != "profile"@[0] && "offset"@[0] != "preset"@[0]);
    assert("profile"@[2] != "preset"@[2]);
    assert(include_key()[7] != exclude_key()[7]);
    assert("profile"@[0] != include_key()[0] && "preset"@[0] != include_key()[0]);
    assert("sort[]"@[0] != include_key()[0]);
}

/// An absent part of a query gives no pair at all, not an empty one: each of
/// `verbose`, `limit`, `offset`, `profile`, `preset` has a pair exactly when it
/// is set; the field lists and the sort keys have pairs exactly when they are
/// not empty; and the group operator of the filters is there exactly when some
/// filter has an operator.
pub proof fn lemma_absent_parts_have_no_pairs(q: QueryParams)
    ensures
        has_key(encoded(q), "verbose"@) <==> q.verbose is Some,
        has_key(encoded(q), "limit"@) <==> q.limit is Some,
        has_key(encoded(q), "offset"@) <==> q.offset is Some,
        has_key(encoded(q), "profile"@) <==> q.profile is Some,
        has_key(encoded(q), "preset"@) <==> q.preset is Some,
        has_key(encoded(q), include_key()) <==> q.include_fields@.len() > 0,
        has_key(encoded(q), exclude_key()) <==> q.exclude_fields@.len() > 0,
        has_key(encoded(q), "sort[]"@) <==> q.sort@.len() > 0,
        has_key(encoded(q), "filter[operator]"@) <==> exists|i: int|
            0 <= i < q.filter@.len() && (#[trigger] q.filter@[i]).operator is Some,
{
    lemma_literal_keys_differ();
    let keys = seq![
        "verbose"@,
        "limit"@,
        "offset"@,
        "profile"@,
        "preset"@,
        include_key(),
        exclude_key(),
        "sort[]"@,
        "filter[operator]"@,
    ];
    assert forall|x: int| 0 <= x < keys.len() implies {
        let k = #[trigger] keys[x];
        &&& has_key(encoded(q), k) <==> has_key(scalar_pairs(q), k) || has_key(
            repeated_pairs(include_key(), q.include_fields@),
            k,
        ) || has_key(repeated_pairs(exclude_key(), q.exclude_fields@), k) || has_key(
            clauses_pairs(q.query@),
            k,
        ) || has_key(filter_pairs(q.filter@), k) || has_key(sort_pairs(q.sort@), k)
        &&& k[0] != 'q' ==> !has_key(clauses_pairs(q.query@), k)
        &&& k[0] != 'f' || k[2] != 'l' ==> !has_key(filter_pairs(q.filter@), k)
        &&& k[0] != 'v' && k[0] != 'l' && k[0] != 'o' && k[0] != 'p' ==> !has_key(scalar_pairs(q), k)
        &&& has_key(repeated_pairs(include_key(), q.include_fields@), k) <==> q.include_fields@.len() > 0
            && k == include_key()
        &&& has_key(repeated_pairs(exclude_key(), q.exclude_fields@), k) <==> q.exclude_fields@.len() > 0
            && k == exclude_key()
        &&& has_key(sort_pairs(q.sort@), k) <==> q.sort@.len() > 0 && k == "sort[]"@
        &&& has_key(scalar_pairs(q), k) <==> (q.verbose is Some && k == "verbose"@) || (q.limit is Some
            && k == "limit"@) || (q.offset is Some && k == "offset"@) || (q.profile is Some && k
            == "profile"@) || (q.preset is Some && k == "preset"@)
    } by {
        lemma_encoded_key(q, keys[x]);
        lemma_other_sections(q, keys[x]);
        lemma_scalar_section(q, keys[x]);
    }
    assert(keys[0] == "verbose"@ && keys[1] == "limit"@ && keys[2] == "offset"@);
    assert(keys[3] == "profile"@ && keys[4] == "preset"@ && keys[5] == include_key());
    assert(keys[6] == exclude_key() && keys[7] == "sort[]"@ && keys[8] == "filter[operator]"@);
    let k = "filter[operator]"@;
    let head = optional_pair(k, operator_opt_text(first_operator(q.filter@)));
    lemma_has_key_concat(head, conditions_pairs(q.filter@), k);
    lemma_optional_key(k, operator_opt_text(first_operator(q.filter@)), k);
    lemma_conditions_heads(q.filter@);
    lemma_no_key_by_char(conditions_pairs(q.filter@), k, 7);
    lemma_first_operator_some(q.filter@);
}

proof fn lemma_indexed_heads(i: nat, s: Seq<char>)
    ensures
        clause_key(i, s).len() > 6,
        clause_key(i, s)[0] == 'q',
        condition_key(i, s).len() > 19,
        condition_key(i, s)[0] == 'f',
        condition_key(i, s)[2] == 'l',
        condition_key(i, s)[7] == 'c',
{
    reveal_strlit("query[");
    reveal_strlit("filter[conditions][");
    assert(clause_key(i, s)[0] == "query["@[0]);
    let c = condition_key(i, s);
    assert(c[0] == "filter[conditions]["@[0]);
    assert(c[2] == "filter[conditions]["@[2]);
    assert(c[7] == "filter[conditions]["@[7]);
}

proof fn lemma_clause_section(q: QueryParams, i: nat, s: Seq<char>)
    ensures
        has_key(encoded(q), clause_key(i, s)) <==> has_key(clauses_pairs(q.query@), clause_key(i, s)),
{
    let k = clause_key(i, s);
    lemma_indexed_heads(i, s);
    lemma_literal_keys_differ();
    lemma_encoded_key(q, k);
    lemma_other_sections(q, k);
    assert(k != include_key() && k != exclude_key() && k != "sort[]"@) by {
        assert(k[0] != include_key()[0] && k[0] != exclude_key()[0] && k[0] != "sort[]"@[0]);
    }
}

proof fn lemma_condition_section(q: QueryParams, i: nat, s: Seq<char>)
    ensures
        has_key(encoded(q), condition_key(i, s)) <==> has_key(conditions_pairs(q.filter@), condition_key(i, s)),
{
    let k = condition_key(i, s);
    lemma_indexed_heads(i, s);
    lemma_literal_keys_differ();
    lemma_encoded_key(q, k);
    lemma_other_sections(q, k);
    assert(k != include_key() && k != exclude_key() && k != "sort[]"@) by {
        assert(k[2] != include_key()[2] && k[2] != exclude_key()[2] && k[0] != "sort[]"@[0]);
    }
    let head = optional_pair("filter[operator]"@, operator_opt_text(first_operator(q.filter@)));
    lemma_has_key_concat(head, conditions_pairs(q.filter@), k);
    lemma_optional_key("filter[operator]"@, operator_opt_text(first_operator(q.filter@)), k);
    assert(k != "filter[operator]"@) by {
        assert(k[7] != "filter[operator]"@[7]);
    }
}

proof fn lemma_rests_differ()
    ensures
        "][value]"@.len() > 2 && "][value]"@[0] == ']' && "][value]"@[2] == 'v',
        "][operator]"@.len() > 2 && "][operator]"@[0] == ']' && "][operator]"@[2] == 'o',
        "][fields]["@.len() > 2 && "][fields]["@[2] == 'f',
        "][field]"@.len() > 2 && "][field]"@[0] == ']' && "][field]"@[2] == 'f',
        "][value][]"@.len() > 2 && "][value][]"@[0] == ']' && "][value][]"@[2] == 'v',
        "][negate]"@.len() > 2 && "][negate]"@[0] == ']' && "][negate]"@[2] == 'n',
{
    reveal_strlit("][value]");
    reveal_strlit("][operator]");
    reveal_strlit("][fields][");
    reveal_strlit("][field]");
    reveal_strlit("][value][]");
    reveal_strlit("][negate]");
}

proof fn lemma_clause_operator(i: nat, c: QueryQuery)
    ensures
        has_key(clause_pairs(i, c), clause_key(i, "][operator]"@)) <==> c.operator is Some,
{
    let ps = clause_pairs(i, c);
    let k = clause_key(i, "][operator]"@);
    let n = c.fields@.len() as int;
    lemma_rests_differ();
    lemma_clause_pair_keys(i, c);
    if has_key(ps, k) {
        let m = choose|m: int| 0 <= m < ps.len() && (#[trigger] ps[m]).0 == k;
        lemma_indexed_key_injective("query["@, i, clause_rest(c, m), i, "][operator]"@);
        if 1 <= m <= n {
            assert(clause_rest(c, m)[2] == "][fields]["@[2]);
        }
    }
    if c.operator is Some {
        assert(ps[n + 1].0 == k);
    }
}

proof fn lemma_condition_rest(i: nat, f: QueryFilter, rest: Seq<char>)
    requires
        rest.len() > 2,
        rest[0] == ']',
        has_key(condition_pairs(i, f), condition_key(i, rest)),
    ensures
        rest == "][operator]"@ ==> f.operator is Some,
        rest == "][negate]"@ ==> f.negate,
{
    let ps = condition_pairs(i, f);
    let k = condition_key(i, rest);
    lemma_rests_differ();
    lemma_condition_pair_keys(i, f);
    let m = choose|m: int| 0 <= m < ps.len() && (#[trigger] ps[m]).0 == k;
    lemma_indexed_key_injective("filter[conditions]["@, i, condition_rest(f, m), i, rest);
}

/// Each search clause and each condition carries an operator pair exactly
/// when it has an operator, under its own position.
pub proof fn lemma_operators_only_where_set(q: QueryParams, i: nat)
    ensures
        has_key(encoded(q), clause_key(i, "][operator]"@)) <==> i < q.query@.len()
            && q.query@[i as int].operator is Some,
        has_key(encoded(q), condition_key(i, "][operator]"@)) <==> i < q.filter@.len()
            && q.filter@[i as int].operator is Some,
{
    lemma_rests_differ();
    let ck = clause_key(i, "][operator]"@);
    lemma_clause_section(q, i, "][operator]"@);
    if has_key(clauses_pairs(q.query@), ck) {
        lemma_clause_key_source(q.query@, i, "][operator]"@);
        lemma_clause_operator(i, q.query@[i as int]);
    }
    if i < q.query@.len() && q.query@[i as int].operator is Some {
        let c = q.query@[i as int];
        let n = c.fields@.len() as int;
        lemma_clause_contained(q.query@, i);
        assert(clause_pairs(i, c)[n + 1].0 == ck);
        assert(clauses_pairs(q.query@).contains(clause_pairs(i, c)[n + 1]));
        lemma_contains_has_key(clauses_pairs(q.query@), clause_pairs(i, c)[n + 1]);
    }
    let fk = condition_key(i, "][operator]"@);
    lemma_condition_section(q, i, "][operator]"@);
    if has_key(conditions_pairs(q.filter@), fk) {
        lemma_condition_key_source(q.filter@, i, "][operator]"@);
        lemma_condition_rest(i, q.filter@[i as int], "][operator]"@);
    }
    if i < q.filter@.len() && q.filter@[i as int].operator is Some {
        let f = q.filter@[i as int];
        let x = if f.negate { 3int } else { 2int };
        lemma_condition_contained(q.filter@, i);
        assert(condition_pairs(i, f)[x].0 == fk);
        assert(conditions_pairs(q.filter@).contains(condition_pairs(i, f)[x]));
        lemma_contains_has_key(conditions_pairs(q.filter@), condition_pairs(i, f)[x]);
    }
}

/// A condition carries a `negate` pair exactly when it is negated, and that
/// pair is then `negate=1`.
pub proof fn lemma_negate_only_when_set(q: QueryParams, i: nat)
    ensures
        has_key(encoded(q), condition_key(i, "][negate]"@)) <==> i < q.filter@.len()
            && q.filter@[i as int].negate,
        i < q.filter@.len() && q.filter@[i as int].negate ==> encoded(q).contains(
            (condition_key(i, "][negate]"@), "1"@),
        ),
{
    lemma_rests_differ();
    let k = condition_key(i, "][negate]"@);
    lemma_condition_section(q, i, "][negate]"@);
    if has_key(conditions_pairs(q.filter@), k) {
        lemma_condition_key_source(q.filter@, i, "][negate]"@);
        lemma_condition_rest(i, q.filter@[i as int], "][negate]"@);
    }
    if i < q.filter@.len() && q.filter@[i as int].negate {
        let f = q.filter@[i as int];
        let p = condition_pairs(i, f)[2];
        assert(p == (k, "1"@));
        lemma_condition_contained(q.filter@, i);
        assert(conditions_pairs(q.filter@).contains(p));
        lemma_contains_has_key(conditions_pairs(q.filter@), p);
        lemma_encoded_contains(q, p);
    }
}

/// The positions in the keys are the positions of the entries: the clause at
/// position `i` is sent under `query[i]`, its `j`-th field under
/// `query[i][fields][j]`, the condition at position `i` under
/// `filter[conditions][i]`; and no key names a position that has no entry.
pub proof fn lemma_positions_are_indices(q: QueryParams, i: nat)
    ensures
        i < q.query@.len() ==> encoded(q).contains(
            (clause_key(i, "][value]"@), q.query@[i as int].value@),
        ),
        i < q.query@.len() ==> forall|j: int|
            0 <= j < q.query@[i as int].fields@.len() ==> encoded(q).contains(
                (clause_field_key(i, j as nat), (#[trigger] q.query@[i as int].fields@[j])@),
            ),
        i < q.filter@.len() ==> encoded(q).contains(
            (condition_key(i, "][field]"@), q.filter@[i as int].field@),
        ),
        i < q.filter@.len() ==> encoded(q).contains(
            (condition_key(i, "][value][]"@), q.filter@[i as int].value@),
        ),
        forall|s: Seq<char>|
            s.len() > 0 && s[0] == ']' && #[trigger] has_key(encoded(q), clause_key(i, s)) ==> i
                < q.query@.len(),
        forall|s: Seq<char>|
            s.len() > 0 && s[0] == ']' && #[trigger] has_key(encoded(q), condition_key(i, s)) ==> i
                < q.filter@.len(),
{
    if i < q.query@.len() {
        let c = q.query@[i as int];
        let ps = clause_pairs(i, c);
        lemma_clause_contained(q.query@, i);
        assert(ps[0] == (clause_key(i, "][value]"@), c.value@));
        lemma_encoded_contains(q, ps[0]);
        assert forall|j: int| 0 <= j < c.fields@.len() implies encoded(q).contains(
            (clause_field_key(i, j as nat), (#[trigger] c.fields@[j])@),
        ) by {
            assert(ps[1 + j] == (clause_field_key(i, j as nat), c.fields@[j]@));
            lemma_encoded_contains(q, ps[1 + j]);
        }
    }
    if i < q.filter@.len() {
        let f = q.filter@[i as int];
        let ps = condition_pairs(i, f);
        lemma_condition_contained(q.filter@, i);
        lemma_encoded_contains(q, ps[0]);
        lemma_encoded_contains(q, ps[1]);
    }
    assert forall|s: Seq<char>|
        s.len() > 0 && s[0] == ']' && #[trigger] has_key(encoded(q), clause_key(i, s)) implies i
            < q.query@.len() by {
        lemma_clause_section(q, i, s);
        lemma_clause_key_source(q.query@, i, s);
    }
    assert forall|s: Seq<char>|
        s.len() > 0 && s[0] == ']' && #[trigger] has_key(encoded(q), condition_key(i, s)) implies i
            < q.filter@.len() by {
        lemma_condition_section(q, i, s);
        lemma_condition_key_source(q.filter@, i, s);
    }
}

} // verus!
