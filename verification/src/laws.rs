//! Properties that hold across the library's operations: what a read gives
//! back of a write, what one call undoes of another, and what stays fixed.
use vstd::prelude::*;

use crate::gc::{entry_index, keys_unique, lemma_entry_index_of_unique, map_inserted, map_lookup, map_removed};
use crate::native_list::dedup_seq;
use crate::native_map::{entry_keys, entry_values, sorted_by_key};
use crate::native_set::{any_in, filter_by_membership, union_seq};
use crate::output::{after_write, write_text};
use crate::strops::{find, occurs_at, split_empty, split_seq, split_str, all_digits, digit_value, is_ws, numeral_value, parse_i64, trim_end_ws, trim_start_ws, trim_ws};
use crate::text::{digit_char, int_decimal, lemma_chars_le_antisym, nat_digits};
use crate::vm::{seq_has_value, value_eq, VmValue};
use crate::chunk::OpCode;
use crate::datetime::{hms_parts, lemma_tdiv, lemma_tdiv_unique, since_nanos, tdiv, trem};
use crate::compiler::{binary_code, unary_code};
use crate::token::{Token, TokenKind};
use crate::ast::Expr;
use crate::parser::{eql_at, eql_end, eql_from, eql_tok, lit_expr, lit_tok, rel_at, rel_end, rel_from, rel_tok, stop_tok};
use crate::typechecker::{compatible, TyView};

verus! {

/// Value equality is symmetric.
pub proof fn law_value_eq_symmetric(a: VmValue, b: VmValue)
    ensures
        value_eq(a, b) == value_eq(b, a),
{
}

/// Value equality is transitive.
pub proof fn law_value_eq_transitive(a: VmValue, b: VmValue, c: VmValue)
    requires
        value_eq(a, b),
        value_eq(b, c),
    ensures
        value_eq(a, c),
{
}

/// `Map#get` after `Map#set(k, x)` gives `x` for `k`, and what it gave
/// before for every other key; the keys stay distinct.
pub proof fn law_map_get_after_set(entries: Seq<(String, VmValue)>, k: String, x: VmValue, other: Seq<char>)
    requires
        keys_unique(entries),
    ensures
        keys_unique(map_inserted(entries, k, x)),
        map_lookup(map_inserted(entries, k, x), k@) == Some(x),
        other != k@ ==> map_lookup(map_inserted(entries, k, x), other) == map_lookup(entries, other),
{
    let r = map_inserted(entries, k, x);
    lemma_entry_index_of_unique(entries, k@);
    lemma_entry_index_of_unique(entries, other);
    match entry_index(entries, k@) {
        Some(i) => {
            assert(r.len() == entries.len());
            assert forall|a: int, b: int| 0 <= a < r.len() && 0 <= b < r.len() && a != b implies #[trigger] r[a].0@ != #[trigger] r[b].0@ by {
                assert(r[a].0 == entries[a].0);
                assert(r[b].0 == entries[b].0);
            }
            assert(keys_unique(r));
            lemma_entry_index_of_unique(r, k@);
            assert(r[i].0@ == k@);
            lemma_entry_index_of_unique(r, other);
            if other != k@ {
                match entry_index(entries, other) {
                    Some(j) => {
                        assert(r[j].0@ == other);
                    },
                    None => {
                        assert forall|j: int| 0 <= j < r.len() implies #[trigger] r[j].0@ != other by {
                            if j != i {
                                assert(r[j] == entries[j]);
                            }
                        }
                    },
                }
            }
        },
        None => {
            assert forall|a: int, b: int| 0 <= a < r.len() && 0 <= b < r.len() && a != b implies #[trigger] r[a].0@ != #[trigger] r[b].0@ by {
                if a < entries.len() && b < entries.len() {
                    assert(r[a] == entries[a]);
                    assert(r[b] == entries[b]);
                }
            }
            assert(keys_unique(r));
            lemma_entry_index_of_unique(r, k@);
            assert(r[entries.len() as int].0@ == k@);
            lemma_entry_index_of_unique(r, other);
            if other != k@ {
                match entry_index(entries, other) {
                    Some(j) => {
                        assert(r[j] == entries[j]);
                    },
                    None => {
                        assert forall|j: int| 0 <= j < r.len() implies #[trigger] r[j].0@ != other by {
                            if j < entries.len() {
                                assert(r[j] == entries[j]);
                            }
                        }
                    },
                }
            }
        },
    }
}

/// After `Map#delete(k)` the key `k` is absent and every other key reads as
/// before.
pub proof fn law_map_get_after_delete(entries: Seq<(String, VmValue)>, k: Seq<char>, other: Seq<char>)
    requires
        keys_unique(entries),
    ensures
        keys_unique(map_removed(entries, k)),
        map_lookup(map_removed(entries, k), k) is None,
        other != k ==> map_lookup(map_removed(entries, k), other) == map_lookup(entries, other),
{
    let r = map_removed(entries, k);
    lemma_entry_index_of_unique(entries, k);
    lemma_entry_index_of_unique(entries, other);
    match entry_index(entries, k) {
        Some(i) => {
            assert forall|j: int| 0 <= j < r.len() implies #[trigger] r[j] == (if j < i { entries[j] } else { entries[j + 1] }) by {}
            assert forall|a: int, b: int| 0 <= a < r.len() && 0 <= b < r.len() && a != b implies #[trigger] r[a].0@ != #[trigger] r[b].0@ by {
                let a2 = if a < i { a } else { a + 1 };
                let b2 = if b < i { b } else { b + 1 };
                assert(r[a] == entries[a2]);
                assert(r[b] == entries[b2]);
            }
            assert(keys_unique(r));
            lemma_entry_index_of_unique(r, k);
            assert forall|j: int| 0 <= j < r.len() implies #[trigger] r[j].0@ != k by {
                let j2 = if j < i { j } else { j + 1 };
                assert(r[j] == entries[j2]);
            }
            lemma_entry_index_of_unique(r, other);
            if other != k {
                match entry_index(entries, other) {
                    Some(j) => {
                        let j2 = if j < i { j } else { j - 1 };
                        assert(r[j2] == entries[j]);
                    },
                    None => {
                        assert forall|j: int| 0 <= j < r.len() implies #[trigger] r[j].0@ != other by {
                            let j2 = if j < i { j } else { j + 1 };
                            assert(r[j] == entries[j2]);
                        }
                    },
                }
            }
        },
        None => {},
    }
}

/// A value is in the union of two sets exactly when it is in either.
pub proof fn law_union_membership(base: Seq<VmValue>, other: Seq<VmValue>, v: VmValue)
    ensures
        seq_has_value(union_seq(base, other), v) <==> (seq_has_value(base, v) || seq_has_value(other, v)),
    decreases other.len(),
{
    if other.len() > 0 {
        let o = other.drop_last();
        law_union_membership(base, o, v);
        let u = union_seq(base, o);
        let x = other.last();
        assert(other[other.len() - 1] == x);
        if seq_has_value(other, v) && !seq_has_value(o, v) {
            let j = choose|j: int| 0 <= j < other.len() && value_eq(#[trigger] other[j], v);
            if j < o.len() {
                assert(o[j] == other[j]);
            }
        }
        if seq_has_value(o, v) {
            let j = choose|j: int| 0 <= j < o.len() && value_eq(#[trigger] o[j], v);
            assert(other[j] == o[j]);
        }
        if seq_has_value(u, x) {
            if value_eq(x, v) {
                let j = choose|j: int| 0 <= j < u.len() && value_eq(#[trigger] u[j], x);
                law_value_eq_transitive(u[j], x, v);
            }
        } else {
            let up = u.push(x);
            if seq_has_value(up, v) {
                let j = choose|j: int| 0 <= j < up.len() && value_eq(#[trigger] up[j], v);
                if j < u.len() {
                    assert(up[j] == u[j]);
                }
            }
            if seq_has_value(u, v) {
                let j = choose|j: int| 0 <= j < u.len() && value_eq(#[trigger] u[j], v);
                assert(up[j] == u[j]);
            }
            if value_eq(x, v) {
                assert(up[u.len() as int] == x);
            }
        }
    }
}

proof fn lemma_trim_start_no_leading_ws(s: Seq<char>)
    ensures
        trim_start_ws(s).len() == 0 || !is_ws(trim_start_ws(s)[0]),
        trim_start_ws(trim_start_ws(s)) == trim_start_ws(s),
    decreases s.len(),
{
    if s.len() > 0 && is_ws(s[0]) {
        lemma_trim_start_no_leading_ws(s.drop_first());
    }
}

proof fn lemma_trim_end_keeps_start(s: Seq<char>)
    requires
        s.len() == 0 || !is_ws(s[0]),
    ensures
        trim_end_ws(s).len() == 0 || !is_ws(trim_end_ws(s)[0]),
        trim_end_ws(s).len() == 0 || !is_ws(trim_end_ws(s).last()),
    decreases s.len(),
{
    if s.len() > 0 && is_ws(s.last()) {
        let t = s.drop_last();
        if t.len() > 0 {
            assert(t[0] == s[0]);
        }
        lemma_trim_end_keeps_start(t);
    }
}

/// Trimming twice is trimming once.
pub proof fn law_trim_idempotent(s: Seq<char>)
    ensures
        trim_ws(trim_ws(s)) == trim_ws(s),
{
    lemma_trim_start_no_leading_ws(s);
    let t = trim_start_ws(s);
    lemma_trim_end_keeps_start(t);
    let u = trim_end_ws(t);
    assert(trim_start_ws(u) == u);
    assert(trim_end_ws(u) == u);
}

proof fn lemma_digit_char_value(d: int)
    requires
        0 <= d < 10,
    ensures
        digit_value(digit_char(d)) == Some(d),
        !is_ws(digit_char(d)),
        digit_char(d) != '-' && digit_char(d) != '+',
{
}

proof fn lemma_nat_digits(n: nat)
    ensures
        nat_digits(n).len() > 0,
        all_digits(nat_digits(n)),
        numeral_value(nat_digits(n)) == n,
        forall|i: int| 0 <= i < nat_digits(n).len() ==> !is_ws(#[trigger] nat_digits(n)[i]) && nat_digits(n)[i] != '-' && nat_digits(n)[i] != '+',
    decreases n,
{
    if n < 10 {
        lemma_digit_char_value(n as int);
        assert(nat_digits(n) =~= seq![digit_char(n as int)]);
        assert(nat_digits(n).drop_last() =~= Seq::<char>::empty());
        assert(numeral_value(Seq::<char>::empty()) == 0);
        assert(nat_digits(n).last() == digit_char(n as int));
        assert(numeral_value(nat_digits(n)) == numeral_value(nat_digits(n).drop_last()) * 10 + n);
    } else {
        lemma_nat_digits(n / 10);
        lemma_digit_char_value((n % 10) as int);
        let d = nat_digits(n);
        let p = nat_digits(n / 10);
        assert(d == p.push(digit_char((n % 10) as int)));
        assert(d.drop_last() =~= p);
        assert forall|i: int| 0 <= i < d.len() implies (#[trigger] digit_value(d[i])) is Some by {
            if i < p.len() {
                assert(d[i] == p[i]);
            }
        }
        assert forall|i: int| 0 <= i < d.len() implies !is_ws(#[trigger] d[i]) && d[i] != '-' && d[i] != '+' by {
            if i < p.len() {
                assert(d[i] == p[i]);
            }
        }
        assert(d.last() == digit_char((n % 10) as int));
        assert(numeral_value(d) == numeral_value(p) * 10 + (n % 10));
        assert(numeral_value(p) == n / 10);
        assert(n == (n / 10) * 10 + n % 10);
    }
}

/// `Int#to_s` followed by `String#to_i` gives the integer back.
pub proof fn law_int_to_s_to_i(n: i64)
    ensures
        parse_i64(trim_ws(int_decimal(n as int))) == Some(n as int),
{
    let s = int_decimal(n as int);
    if n < 0 {
        let m = (-n) as nat;
        lemma_nat_digits(m);
        let d = nat_digits(m);
        assert(s == seq!['-'] + d);
        assert(s.drop_first() =~= d);
        assert(!is_ws(s[0]));
        assert(trim_start_ws(s) == s);
        assert(s.last() == d.last());
        assert(!is_ws(s.last()));
        assert(trim_end_ws(s) == s);
    } else {
        let m = n as nat;
        lemma_nat_digits(m);
        let d = nat_digits(m);
        assert(s == d);
        assert(!is_ws(s[0]));
        assert(trim_start_ws(s) == s);
        assert(!is_ws(s[s.len() - 1]));
        assert(trim_end_ws(s) == s);
    }
}

/// What a run of writes leaves in a sink that starts as `o`.
pub open spec fn after_writes(o: Option<Seq<char>>, ws: Seq<(bool, Seq<char>)>) -> Option<Seq<char>>
    decreases ws.len(),
{
    if ws.len() == 0 {
        o
    } else {
        after_write(after_writes(o, ws.drop_last()), ws.last().0, ws.last().1)
    }
}

/// The text of a run of writes, in order.
pub open spec fn writes_text(ws: Seq<(bool, Seq<char>)>) -> Seq<char>
    decreases ws.len(),
{
    if ws.len() == 0 {
        Seq::empty()
    } else {
        writes_text(ws.drop_last()) + write_text(ws.last().0, ws.last().1)
    }
}

/// Once buffering is active, everything written is collected, in order, so
/// `take` hands back exactly the text of the writes; while it is not
/// active, nothing is collected.
pub proof fn law_output_buffer_collects(ws: Seq<(bool, Seq<char>)>)
    ensures
        after_writes(Some(Seq::empty()), ws) == Some(writes_text(ws)),
        after_writes(None, ws) is None,
    decreases ws.len(),
{
    if ws.len() > 0 {
        law_output_buffer_collects(ws.drop_last());
        assert(writes_text(ws) =~= writes_text(ws.drop_last()) + write_text(ws.last().0, ws.last().1));
    }
}

/// Deduplicating a list keeps exactly its values: a value is in the result
/// when and only when it is in the list.
pub proof fn law_dedup_keeps_values(s: Seq<VmValue>, v: VmValue)
    ensures
        seq_has_value(dedup_seq(s), v) <==> seq_has_value(s, v),
    decreases s.len(),
{
    if s.len() > 0 {
        let p = s.drop_last();
        let x = s.last();
        let d = dedup_seq(p);
        law_dedup_keeps_values(p, v);
        law_dedup_keeps_values(p, x);
        assert(s[s.len() - 1] == x);
        if seq_has_value(s, v) && !seq_has_value(p, v) {
            let j = choose|j: int| 0 <= j < s.len() && value_eq(#[trigger] s[j], v);
            if j < p.len() {
                assert(p[j] == s[j]);
            }
            assert(value_eq(x, v));
            if seq_has_value(d, x) {
                let k = choose|k: int| 0 <= k < d.len() && value_eq(#[trigger] d[k], x);
                law_value_eq_transitive(d[k], x, v);
            } else {
                assert(dedup_seq(s) == d.push(x));
                assert(dedup_seq(s)[d.len() as int] == x);
            }
        }
        if seq_has_value(p, v) {
            let j = choose|j: int| 0 <= j < p.len() && value_eq(#[trigger] p[j], v);
            assert(s[j] == p[j]);
        }
        if seq_has_value(dedup_seq(s), v) && !seq_has_value(d, v) {
            assert(dedup_seq(s) == d.push(x));
            let j = choose|j: int| 0 <= j < dedup_seq(s).len() && value_eq(#[trigger] dedup_seq(s)[j], v);
            if j < d.len() {
                assert(dedup_seq(s)[j] == d[j]);
            }
            assert(value_eq(s[s.len() - 1], v));
        }
        if seq_has_value(d, v) && dedup_seq(s) != d {
            let j = choose|j: int| 0 <= j < d.len() && value_eq(#[trigger] d[j], v);
            assert(dedup_seq(s)[j] == d[j]);
        }
    }
}

/// Deduplicating a list leaves no value twice.
pub proof fn law_dedup_distinct(s: Seq<VmValue>)
    ensures
        forall|i: int, j: int|
            0 <= i < j < dedup_seq(s).len() ==> !value_eq(#[trigger] dedup_seq(s)[i], #[trigger] dedup_seq(s)[j]),
    decreases s.len(),
{
    if s.len() > 0 {
        let p = s.drop_last();
        let x = s.last();
        let d = dedup_seq(p);
        law_dedup_distinct(p);
        if !seq_has_value(d, x) {
            let e = d.push(x);
            assert forall|i: int, j: int| 0 <= i < j < e.len() implies !value_eq(#[trigger] e[i], #[trigger] e[j]) by {
                if j == d.len() {
                    assert(e[j] == x);
                    assert(e[i] == d[i]);
                    if value_eq(d[i], x) {
                        assert(seq_has_value(d, x));
                    }
                } else {
                    assert(e[i] == d[i]);
                    assert(e[j] == d[j]);
                }
            }
        }
    }
}


/// The values of a map come in the order of its keys: the key-sorted entries
/// that `map_keys` lists the keys of and those that `map_values` lists the
/// values of are the same sequence, so the value at each position belongs to
/// the key at that position.
pub proof fn law_map_values_in_key_order(
    entries: Seq<(String, VmValue)>,
    by_keys: Seq<(String, VmValue)>,
    by_values: Seq<(String, VmValue)>,
)
    requires
        sorted_by_key(by_keys, entries),
        sorted_by_key(by_values, entries),
    ensures
        by_keys == by_values,
        entry_keys(by_keys).len() == entry_values(by_values).len(),
        forall|i: int|
            0 <= i < entry_keys(by_keys).len() ==> #[trigger] entry_keys(by_keys)[i] == VmValue::Str(by_values[i].0)
                && entry_values(by_values)[i] == by_values[i].1,
{
    lemma_sorted_prefix_eq(entries, by_keys, by_values, by_keys.len() as int);
    assert(by_keys =~= by_values);
}

proof fn lemma_sorted_prefix_eq(e: Seq<(String, VmValue)>, a: Seq<(String, VmValue)>, b: Seq<(String, VmValue)>, i: int)
    requires
        sorted_by_key(a, e),
        sorted_by_key(b, e),
        0 <= i <= a.len(),
    ensures
        forall|k: int| 0 <= k < i ==> a[k] == b[k],
    decreases i,
{
    if i > 0 {
        lemma_sorted_prefix_eq(e, a, b, i - 1);
        let k = i - 1;
        let x = a[k];
        assert(e.contains(x));
        let m = choose|m: int| 0 <= m < e.len() && e[m] == x;
        assert(b.contains(e[m]));
        let j = choose|j: int| 0 <= j < b.len() && b[j] == x;
        if j < k {
            assert(a[j] == b[j]);
            assert(crate::native_map::key_lt(a[j].0@, a[k].0@));
        } else if j > k {
            let y = b[k];
            assert(e.contains(y));
            let m2 = choose|m2: int| 0 <= m2 < e.len() && e[m2] == y;
            assert(a.contains(e[m2]));
            let j2 = choose|j2: int| 0 <= j2 < a.len() && a[j2] == y;
            if j2 < k {
                assert(a[j2] == b[j2]);
                assert(crate::native_map::key_lt(b[j2].0@, b[k].0@));
            } else if j2 > k {
                assert(crate::native_map::key_lt(a[k].0@, a[j2].0@));
                assert(crate::native_map::key_lt(b[k].0@, b[j].0@));
                lemma_chars_le_antisym(x.0@, y.0@);
            }
        }
    }
}


/// The pieces joined with `sep` between each two.
pub open spec fn joined_with(pieces: Seq<Seq<char>>, sep: Seq<char>) -> Seq<char>
    decreases pieces.len(),
{
    if pieces.len() == 0 {
        Seq::empty()
    } else if pieces.len() == 1 {
        pieces[0]
    } else {
        pieces[0] + sep + joined_with(pieces.drop_first(), sep)
    }
}

/// Splitting a string at a separator and joining the pieces with that
/// separator gives the string back.
pub proof fn law_split_then_join(s: Seq<char>, sep: Seq<char>)
    ensures
        joined_with(split_str(s, sep), sep) == s,
    decreases s.len(),
{
    if sep.len() == 0 {
        lemma_join_chars(s);
        let e = Seq::<char>::empty();
        let cs = s.map_values(|c: char| seq![c]) + seq![e];
        assert(split_empty(s) =~= seq![e] + cs);
        lemma_join_cons(e, cs, sep);
        assert(sep =~= e);
        assert(e + e + s =~= s);
        return;
    }
    assert(split_str(s, sep) == split_seq(s, sep));
    let f = find(s, sep);
    if f is Some {
        let i = f->Some_0;
        lemma_find_some(s, sep);
        let rest = s.skip(i + sep.len());
        lemma_split_some(s, sep, i);
        law_split_then_join(rest, sep);
        assert(split_str(rest, sep) == split_seq(rest, sep));
        lemma_split_len(rest, sep);
        lemma_join_cons(s.take(i), split_seq(rest, sep), sep);
        lemma_occurrence_glue(s, sep, i);
    } else {
        lemma_split_none(s, sep);
    }
}

/// Each character as a piece, then an empty piece, joined with nothing
/// between them, is the string.
proof fn lemma_join_chars(s: Seq<char>)
    ensures
        joined_with(s.map_values(|c: char| seq![c]) + seq![Seq::<char>::empty()], Seq::<char>::empty()) == s,
    decreases s.len(),
{
    let e = Seq::<char>::empty();
    if s.len() == 0 {
        assert(s.map_values(|c: char| seq![c]) + seq![e] =~= seq![e]);
        assert(s =~= e);
    } else {
        let rest = s.drop_first();
        lemma_join_chars(rest);
        let tail = rest.map_values(|c: char| seq![c]) + seq![e];
        assert(s.map_values(|c: char| seq![c]) + seq![e] =~= seq![seq![s[0]]] + tail);
        lemma_join_cons(seq![s[0]], tail, e);
        assert(seq![s[0]] + e + rest =~= s);
    }
}

proof fn lemma_join_cons(a: Seq<char>, tail: Seq<Seq<char>>, sep: Seq<char>)
    requires
        tail.len() >= 1,
    ensures
        joined_with(seq![a] + tail, sep) == a + sep + joined_with(tail, sep),
{
    let all = seq![a] + tail;
    assert(all.drop_first() =~= tail);
    assert(all[0] == a);
}

proof fn lemma_occurrence_glue(s: Seq<char>, p: Seq<char>, i: int)
    requires
        occurs_at(s, p, i),
    ensures
        s.take(i) + p + s.skip(i + p.len()) == s,
{
    assert(s.take(i) + p + s.skip(i + p.len()) =~= s);
}

proof fn lemma_split_some(s: Seq<char>, p: Seq<char>, i: int)
    requires
        p.len() > 0,
        find(s, p) == Some(i),
        0 <= i,
        i + p.len() <= s.len(),
    ensures
        split_seq(s, p) == seq![s.take(i)] + split_seq(s.skip(i + p.len()), p),
{
    reveal_with_fuel(split_seq, 1);
}

proof fn lemma_split_none(s: Seq<char>, p: Seq<char>)
    requires
        p.len() > 0,
        find(s, p) is None,
    ensures
        split_seq(s, p) == seq![s],
{
    reveal_with_fuel(split_seq, 1);
}

proof fn lemma_split_len(s: Seq<char>, p: Seq<char>)
    requires
        p.len() > 0,
    ensures
        split_seq(s, p).len() >= 1,
{
    reveal_with_fuel(split_seq, 1);
}

/// Where `find` answers an index, `p` occurs there.
proof fn lemma_find_some(s: Seq<char>, p: Seq<char>)
    requires
        find(s, p) is Some,
    ensures
        occurs_at(s, p, find(s, p)->Some_0),
{
    let k = choose|k: int| occurs_at(s, p, k);
    lemma_first_occurrence(s, p, k);
}

proof fn lemma_first_occurrence(s: Seq<char>, p: Seq<char>, k: int)
    requires
        occurs_at(s, p, k),
    ensures
        exists|i: int| occurs_at(s, p, i) && forall|j: int| 0 <= j < i ==> !occurs_at(s, p, j),
    decreases k,
{
    if exists|j: int| 0 <= j < k && occurs_at(s, p, j) {
        let j = choose|j: int| 0 <= j < k && occurs_at(s, p, j);
        lemma_first_occurrence(s, p, j);
    } else {
        assert(occurs_at(s, p, k) && forall|j: int| 0 <= j < k ==> !occurs_at(s, p, j));
    }
}


/// `List#include?` after `List#append(v)` answers true for `v`, and an empty
/// list includes nothing; `v` must equal itself (a NaN does not).
pub proof fn law_include_after_append(xs: Seq<VmValue>, v: VmValue, w: VmValue)
    requires
        value_eq(v, v),
    ensures
        seq_has_value(xs.push(v), v),
        !seq_has_value(Seq::<VmValue>::empty(), w),
{
    assert(xs.push(v)[xs.len() as int] == v);
}

/// `Set#delete(v)` after `Set#add(v)` of a `v` not in the set gives the set
/// back: the first element equal to `v` in the grown set is the one just
/// added, and removing it restores the elements in their order.
pub proof fn law_set_delete_undoes_add(s: Seq<VmValue>, v: VmValue, i: int)
    requires
        !seq_has_value(s, v),
        value_eq(v, v),
        0 <= i < s.push(v).len(),
        value_eq(s.push(v)[i], v),
        forall|j: int| 0 <= j < i ==> !value_eq(#[trigger] s.push(v)[j], v),
    ensures
        i == s.len(),
        s.push(v).remove(i) == s,
{
    if i < s.len() {
        assert(s.push(v)[i] == s[i]);
        assert(value_eq(s[i], v));
    }
    assert(s.push(v).remove(i) =~= s);
}


/// `Set#delete(v)` on a set without duplicates leaves no element equal to
/// `v`: the first equal element is removed, the others keep their order,
/// and none of them equals `v`.
pub proof fn law_set_delete_removes(s: Seq<VmValue>, v: VmValue, i: int)
    requires
        forall|j: int, k: int| 0 <= j < s.len() && 0 <= k < s.len() && j != k ==> !value_eq(#[trigger] s[j], #[trigger] s[k]),
        0 <= i < s.len(),
        value_eq(s[i], v),
    ensures
        !seq_has_value(s.remove(i), v),
        s.remove(i).len() == s.len() - 1,
        forall|j: int| 0 <= j < s.len() - 1 ==> #[trigger] s.remove(i)[j] == if j < i {
            s[j]
        } else {
            s[j + 1]
        },
{
    let t = s.remove(i);
    assert forall|j: int| 0 <= j < t.len() implies !value_eq(#[trigger] t[j], v) by {
        let k = if j < i { j } else { j + 1 };
        assert(t[j] == s[k]);
        if value_eq(s[k], v) {
            law_value_eq_symmetric(s[i], v);
            law_value_eq_transitive(s[k], v, s[i]);
        }
    }
}

/// `Set#disjoint?` answers true exactly when `Set#intersection` of the same
/// sets is empty.
pub proof fn law_disjoint_iff_empty_intersection(s: Seq<VmValue>, o: Seq<VmValue>)
    ensures
        !any_in(s, o) <==> filter_by_membership(s, o, true).len() == 0,
    decreases s.len(),
{
    if s.len() > 0 {
        law_disjoint_iff_empty_intersection(s.drop_last(), o);
        if any_in(s.drop_last(), o) {
            let i = choose|i: int| 0 <= i < s.drop_last().len() && seq_has_value(o, #[trigger] s.drop_last()[i]);
            assert(s[i] == s.drop_last()[i]);
        }
        if any_in(s, o) && !seq_has_value(o, s.last()) {
            let i = choose|i: int| 0 <= i < s.len() && seq_has_value(o, #[trigger] s[i]);
            assert(i < s.len() - 1);
            assert(s.drop_last()[i] == s[i]);
        }
        if seq_has_value(o, s.last()) {
            assert(s[s.len() - 1] == s.last());
        }
    }
}

/// The elements that filtering by membership keeps are exactly those of `s`
/// whose membership in `o` is `keep`.
proof fn lemma_filter_membership(s: Seq<VmValue>, o: Seq<VmValue>, keep: bool, x: VmValue)
    ensures
        filter_by_membership(s, o, keep).contains(x) <==> (s.contains(x) && seq_has_value(o, x) == keep),
    decreases s.len(),
{
    if s.len() > 0 {
        let t = s.drop_last();
        lemma_filter_membership(t, o, keep, x);
        let f = filter_by_membership(t, o, keep);
        if t.contains(x) {
            let j = choose|j: int| 0 <= j < t.len() && t[j] == x;
            assert(s[j] == x);
        }
        if s.contains(x) && x != s.last() {
            let j = choose|j: int| 0 <= j < s.len() && s[j] == x;
            assert(j < t.len());
            assert(t[j] == x);
        }
        if x == s.last() {
            assert(s[s.len() - 1] == x);
        }
        if seq_has_value(o, s.last()) == keep {
            let g = f.push(s.last());
            if g.contains(x) && x != s.last() {
                let j = choose|j: int| 0 <= j < g.len() && g[j] == x;
                assert(j < f.len());
                assert(f[j] == x);
            }
            if f.contains(x) {
                let j = choose|j: int| 0 <= j < f.len() && f[j] == x;
                assert(g[j] == x);
            }
            assert(g[f.len() as int] == s.last());
        }
    }
}

/// `Set#difference`: a value is in the result exactly when it is in the
/// receiver and equals no element of the argument.
pub proof fn law_difference_membership(s: Seq<VmValue>, o: Seq<VmValue>, x: VmValue)
    ensures
        filter_by_membership(s, o, false).contains(x) <==> (s.contains(x) && !seq_has_value(o, x)),
        forall|i: int| 0 <= i < filter_by_membership(s, o, false).len() ==> !seq_has_value(
            o,
            #[trigger] filter_by_membership(s, o, false)[i],
        ),
{
    lemma_filter_membership(s, o, false, x);
    assert forall|i: int| 0 <= i < filter_by_membership(s, o, false).len() implies !seq_has_value(
        o,
        #[trigger] filter_by_membership(s, o, false)[i],
    ) by {
        let y = filter_by_membership(s, o, false)[i];
        lemma_filter_membership(s, o, false, y);
        assert(filter_by_membership(s, o, false).contains(y));
    }
}

/// `Set#intersection`: a value is in the result exactly when it is in the
/// receiver and equals some element of the argument.
pub proof fn law_intersection_membership(s: Seq<VmValue>, o: Seq<VmValue>, x: VmValue)
    ensures
        filter_by_membership(s, o, true).contains(x) <==> (s.contains(x) && seq_has_value(o, x)),
{
    lemma_filter_membership(s, o, true, x);
}

/// What an instruction of the virtual machine computes from two integer
/// operands, left then right: a number for the arithmetic ones, a truth
/// value for the comparisons.
pub open spec fn op_result(op: OpCode, a: int, b: int) -> Option<(Option<int>, Option<bool>)> {
    match op {
        OpCode::Add => Some((Some(a + b), None)),
        OpCode::Sub => Some((Some(a - b), None)),
        OpCode::Mul => Some((Some(a * b), None)),
        OpCode::Equal => Some((None, Some(a == b))),
        OpCode::NotEqual => Some((None, Some(a != b))),
        OpCode::Less => Some((None, Some(a < b))),
        OpCode::LessEqual => Some((None, Some(a <= b))),
        OpCode::Greater => Some((None, Some(a > b))),
        OpCode::GreaterEqual => Some((None, Some(a >= b))),
        _ => None,
    }
}

/// What a binary operator of the language means on two integers.
pub open spec fn operator_meaning(k: TokenKind, a: int, b: int) -> Option<(Option<int>, Option<bool>)> {
    match k {
        TokenKind::Plus => Some((Some(a + b), None)),
        TokenKind::Minus => Some((Some(a - b), None)),
        TokenKind::Star => Some((Some(a * b), None)),
        TokenKind::EqEq => Some((None, Some(a == b))),
        TokenKind::BangEq => Some((None, Some(a != b))),
        TokenKind::Less => Some((None, Some(a < b))),
        TokenKind::LessEq => Some((None, Some(a <= b))),
        TokenKind::Greater => Some((None, Some(a > b))),
        TokenKind::GreaterEq => Some((None, Some(a >= b))),
        _ => None,
    }
}

/// The instruction the compiler emits for an arithmetic or comparison
/// operator computes what the operator means: `>` is strict, `>=` is not,
/// and so on for every pair of integers.
pub proof fn law_operator_instruction_meaning(k: TokenKind, a: int, b: int)
    requires
        operator_meaning(k, a, b) is Some,
    ensures
        binary_code(k) matches Some(op) && op_result(op, a, b) == operator_meaning(k, a, b),
{
}

/// Distinct operators compile to distinct instructions.
pub proof fn law_operator_instructions_distinct(k1: TokenKind, k2: TokenKind)
    requires
        binary_code(k1) is Some,
        binary_code(k1) == binary_code(k2),
    ensures
        k1 == k2,
{
}

/// `Instant#sub`: the duration between two instants `d` nanoseconds apart
/// holds its whole seconds as hours, minutes and seconds that add back up to
/// them (hours are not wrapped into days), minutes and seconds below 60, all
/// with the sign of `d`; for `d >= 0` the hours are the whole seconds divided
/// by 3600.  The nanoseconds are what is left below a microsecond.
pub proof fn law_instant_difference_hms(d: int)
    ensures
        hms_parts(since_nanos(d))[0] * 3600 + hms_parts(since_nanos(d))[1] * 60 + hms_parts(since_nanos(d))[2] == tdiv(
            d,
            1_000_000_000,
        ),
        hms_parts(since_nanos(d))[3] == trem(trem(d, 1_000_000_000), 1000),
        -60 < hms_parts(since_nanos(d))[1] < 60,
        -60 < hms_parts(since_nanos(d))[2] < 60,
        d >= 0 ==> {
            &&& hms_parts(since_nanos(d))[0] == tdiv(d, 1_000_000_000) / 3600
            &&& hms_parts(since_nanos(d))[1] == (tdiv(d, 1_000_000_000) / 60) % 60
            &&& hms_parts(since_nanos(d))[2] == tdiv(d, 1_000_000_000) % 60
            &&& 0 <= hms_parts(since_nanos(d))[3] < 1000
        },
        d <= 0 ==> {
            &&& hms_parts(since_nanos(d))[0] <= 0
            &&& hms_parts(since_nanos(d))[1] <= 0
            &&& hms_parts(since_nanos(d))[2] <= 0
            &&& -1000 < hms_parts(since_nanos(d))[3] <= 0
        },
{
    let g: int = 1_000_000_000;
    lemma_tdiv(d, g);
    let sec = tdiv(d, g);
    let rem = trem(d, g);
    lemma_tdiv(rem, 1000);
    let n = trem(rem, 1000);
    let t = since_nanos(d);
    assert(t == sec * g + n);
    assert(d >= 0 ==> 0 <= n < 1000);
    assert(d <= 0 ==> -1000 < n <= 0);
    assert(t >= 0 ==> 0 <= n < g) by {
        if d < 0 {
            assert(sec <= 0 && n <= 0);
            if t >= 0 {
                assert(sec * g <= 0) by (nonlinear_arith)
                    requires
                        sec <= 0,
                        g > 0,
                ;
            }
        }
    }
    assert(t < 0 ==> -g < n <= 0) by {
        if d >= 0 {
            assert(sec * g >= 0) by (nonlinear_arith)
                requires
                    sec >= 0,
                    g > 0,
            ;
        }
    }
    lemma_tdiv_unique(t, g, sec, n);
    lemma_tdiv(sec, 60);
    let m = tdiv(sec, 60);
    lemma_tdiv(m, 60);
    let p = hms_parts(t);
    assert(p[0] == tdiv(m, 60) && p[1] == trem(m, 60) && p[2] == trem(sec, 60) && p[3] == n);
    assert(sec == p[0] * 3600 + p[1] * 60 + p[2]) by (nonlinear_arith)
        requires
            sec == m * 60 + p[2],
            m == p[0] * 60 + p[1],
    ;
    if d >= 0 {
        assert(sec >= 0);
        assert(m >= 0);
        assert(0 <= p[1] * 60 + p[2] < 3600) by (nonlinear_arith)
            requires
                0 <= p[1] < 60,
                0 <= p[2] < 60,
        ;
        vstd::arithmetic::div_mod::lemma_fundamental_div_mod_converse(sec, 3600, p[0], p[1] * 60 + p[2]);
    }
    if d <= 0 {
        assert(sec <= 0);
        assert(m <= 0);
    }
}

/// A named type fits `Num` exactly when it is `Num`, `Int` or `Float`; so
/// an `Int` or `Float` argument is accepted where a `Num` is declared.
pub proof fn law_num_accepts_int_and_float(a: Seq<char>)
    ensures
        compatible(TyView::Named(a), TyView::Named("Num"@)) <==> (a == "Num"@ || a == "Int"@ || a == "Float"@),
{
}

/// Every type fits `Any`, and `Any` fits every type.
pub proof fn law_any_fits_everything(a: TyView)
    ensures
        compatible(a, TyView::Any),
        compatible(TyView::Any, a),
{
}

/// `a OP b` with `OP` one of `<`, `<=`, `>`, `>=` and `a`, `b` literals,
/// followed by a stop token, is a comparison whose tree keeps the operands
/// in source order: `Binary { left: a, op: OP, right: b }`.
pub proof fn law_comparison_operands_in_order(ts: Seq<Token>, i: int)
    requires
        0 <= i,
        i + 3 < ts.len(),
        lit_tok(ts, i),
        rel_tok(ts[i + 1].kind),
        lit_tok(ts, i + 2),
        stop_tok(ts[i + 3].kind),
    ensures
        rel_at(ts, i),
        rel_from(ts, lit_expr(ts, i), i + 1) == (Expr::Binary {
            left: Box::new(lit_expr(ts, i)),
            op: ts[i + 1],
            right: Box::new(lit_expr(ts, i + 2)),
        }),
        rel_end(ts, i + 1) == i + 3,
{
    reveal_with_fuel(crate::parser::rel_ok, 2);
    reveal_with_fuel(rel_from, 2);
    reveal_with_fuel(rel_end, 2);
}

/// A chain `a OP1 b OP2 c` of comparisons associates to the left:
/// `(a OP1 b) OP2 c`.
pub proof fn law_comparison_chain_left_assoc(ts: Seq<Token>, i: int)
    requires
        0 <= i,
        i + 5 < ts.len(),
        lit_tok(ts, i),
        rel_tok(ts[i + 1].kind),
        lit_tok(ts, i + 2),
        rel_tok(ts[i + 3].kind),
        lit_tok(ts, i + 4),
        stop_tok(ts[i + 5].kind),
    ensures
        rel_at(ts, i),
        rel_from(ts, lit_expr(ts, i), i + 1) == (Expr::Binary {
            left: Box::new(
                (Expr::Binary { left: Box::new(lit_expr(ts, i)), op: ts[i + 1], right: Box::new(lit_expr(ts, i + 2)) }),
            ),
            op: ts[i + 3],
            right: Box::new(lit_expr(ts, i + 4)),
        }),
        rel_end(ts, i + 1) == i + 5,
{
    reveal_with_fuel(crate::parser::rel_ok, 3);
    reveal_with_fuel(rel_from, 3);
    reveal_with_fuel(rel_end, 3);
}

/// What a one-operand instruction computes: `Negate` the opposite of an
/// integer, `Not` the opposite of a truth value, `BitNot` the complement
/// (`-a - 1`) of an integer.
pub open spec fn unary_op_result(op: OpCode, a: int, b: bool) -> Option<(int, bool)> {
    match op {
        OpCode::Negate => Some((-a, b)),
        OpCode::Not => Some((a, !b)),
        OpCode::BitNot => Some((-a - 1, b)),
        _ => None,
    }
}

/// What a prefix operator of the language means: `-` negates a number,
/// `!` a truth value, `~` complements an integer.
pub open spec fn prefix_meaning(k: TokenKind, a: int, b: bool) -> Option<(int, bool)> {
    match k {
        TokenKind::Minus => Some((-a, b)),
        TokenKind::Bang => Some((a, !b)),
        TokenKind::Tilde => Some((-a - 1, b)),
        _ => None,
    }
}

/// The instruction the compiler emits for a prefix operator computes what
/// the operator means, for every operand.
pub proof fn law_prefix_instruction_meaning(k: TokenKind, a: int, b: bool)
    requires
        prefix_meaning(k, a, b) is Some,
    ensures
        unary_code(k) matches Some(op) && unary_op_result(op, a, b) == prefix_meaning(k, a, b),
{
}

/// `a == b` and `a != b` of literals, followed by a stop token, parse to
/// `Binary { left: a, op, right: b }`: the operands stay in source order.
pub proof fn law_equality_operands_in_order(ts: Seq<Token>, i: int)
    requires
        0 <= i,
        i + 3 < ts.len(),
        lit_tok(ts, i),
        eql_tok(ts[i + 1].kind),
        lit_tok(ts, i + 2),
        stop_tok(ts[i + 3].kind),
    ensures
        eql_at(ts, i),
        eql_from(ts, lit_expr(ts, i), i + 1) == (Expr::Binary {
            left: Box::new(lit_expr(ts, i)),
            op: ts[i + 1],
            right: Box::new(lit_expr(ts, i + 2)),
        }),
        eql_end(ts, i + 1) == i + 3,
{
    reveal_with_fuel(crate::parser::eql_ok, 2);
    reveal_with_fuel(eql_from, 2);
    reveal_with_fuel(eql_end, 2);
}

} // verus!
