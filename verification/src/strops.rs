//! Operations on character sequences behind the `String` natives: search,
//! splitting, replacement, trimming and integer parsing.
use vstd::prelude::*;

use crate::text::{chars_range_to_string, str_to_chars, string_push};

verus! {

/// `char::is_whitespace`: the Unicode `White_Space` characters.
pub open spec fn is_ws(c: char) -> bool {
    ('\u{9}' <= c <= '\u{d}') || c == ' ' || c == '\u{85}' || c == '\u{a0}' || c == '\u{1680}'
        || ('\u{2000}' <= c <= '\u{200a}') || c == '\u{2028}' || c == '\u{2029}' || c
        == '\u{202f}' || c == '\u{205f}' || c == '\u{3000}'
}

pub fn char_is_ws(c: char) -> (r: bool)
    ensures
        r == is_ws(c),
{
    ('\u{9}' <= c && c <= '\u{d}') || c == ' ' || c == '\u{85}' || c == '\u{a0}' || c
        == '\u{1680}' || ('\u{2000}' <= c && c <= '\u{200a}') || c == '\u{2028}' || c
        == '\u{2029}' || c == '\u{202f}' || c == '\u{205f}' || c == '\u{3000}'
}

/// `p` occurs in `s` at index `i`.
pub open spec fn occurs_at(s: Seq<char>, p: Seq<char>, i: int) -> bool {
    0 <= i && i + p.len() <= s.len() && s.subrange(i, i + p.len()) == p
}

/// The index of the first occurrence of `p` in `s`.
pub open spec fn find(s: Seq<char>, p: Seq<char>) -> Option<int> {
    if exists|i: int| occurs_at(s, p, i) {
        Some(choose|i: int| occurs_at(s, p, i) && forall|j: int| 0 <= j < i ==> !occurs_at(s, p, j))
    } else {
        None
    }
}

/// Whether `p` occurs in `s` at all.
pub open spec fn contains_seq(s: Seq<char>, p: Seq<char>) -> bool {
    exists|i: int| occurs_at(s, p, i)
}

pub open spec fn is_prefix(p: Seq<char>, s: Seq<char>) -> bool {
    p.len() <= s.len() && s.subrange(0, p.len() as int) == p
}

pub open spec fn is_suffix(p: Seq<char>, s: Seq<char>) -> bool {
    p.len() <= s.len() && s.subrange(s.len() - p.len(), s.len() as int) == p
}

/// Whether `p` occurs in `s` at index `i` (exec).
fn occurs_at_exec(s: &Vec<char>, p: &Vec<char>, i: usize) -> (r: bool)
    ensures
        r == occurs_at(s@, p@, i as int),
{
    if p.len() > s.len() || i > s.len() - p.len() {
        return false;
    }
    let mut k: usize = 0;
    while k < p.len()
        invariant
            k <= p@.len(),
            i + p@.len() <= s@.len(),
            i + p@.len() <= s.len(),
            forall|m: int| 0 <= m < k ==> s@[i + m] == p@[m],
        decreases p@.len() - k,
    {
        if s[i + k] != p[k] {
            assert(s@.subrange(i as int, i + p@.len())[k as int] != p@[k as int]);
            return false;
        }
        k += 1;
    }
    assert(s@.subrange(i as int, i + p@.len()) =~= p@);
    true
}

/// The first occurrence of `p` in `s` at or after `from`; `None` when there
/// is none.
pub fn find_from(s: &Vec<char>, p: &Vec<char>, from: usize) -> (r: Option<usize>)
    requires
        from <= s@.len(),
    ensures
        match r {
            Some(i) => from <= i && occurs_at(s@, p@, i as int) && forall|j: int|
                from <= j < i ==> !occurs_at(s@, p@, j),
            None => forall|j: int| from <= j ==> !occurs_at(s@, p@, j),
        },
{
    let mut i = from;
    loop
        invariant
            from <= i <= s@.len(),
            forall|j: int| from <= j < i ==> !occurs_at(s@, p@, j),
        decreases s@.len() - i,
    {
        if occurs_at_exec(s, p, i) {
            return Some(i);
        }
        if i == s.len() {
            assert forall|j: int| from <= j implies !occurs_at(s@, p@, j) by {
                if j > i {
                    assert(!occurs_at(s@, p@, j));
                }
            }
            return None;
        }
        i += 1;
    }
}

/// `find` agrees with a search from the start.
pub proof fn lemma_find(s: Seq<char>, p: Seq<char>, r: Option<int>)
    requires
        match r {
            Some(i) => 0 <= i && occurs_at(s, p, i) && forall|j: int|
                0 <= j < i ==> !occurs_at(s, p, j),
            None => forall|j: int| 0 <= j ==> !occurs_at(s, p, j),
        },
    ensures
        find(s, p) == r,
{
    match r {
        Some(i) => {
            let k = choose|k: int| occurs_at(s, p, k) && forall|j: int| 0 <= j < k ==> !occurs_at(s, p, j);
            assert(k == i) by {
                if k < i {
                    assert(!occurs_at(s, p, k));
                }
                if i < k {
                    assert(!occurs_at(s, p, i));
                }
            }
        },
        None => {
            assert(!exists|i: int| occurs_at(s, p, i));
        },
    }
}

/// Split `s` at each occurrence of the non-empty `p`, left to right.
#[verifier::opaque]
pub open spec fn split_seq(s: Seq<char>, p: Seq<char>) -> Seq<Seq<char>>
    decreases s.len(),
{
    if p.len() == 0 {
        seq![s]
    } else {
        match find(s, p) {
            Some(i) => if 0 <= i && i + p.len() <= s.len() {
                seq![s.take(i)] + split_seq(s.skip(i + p.len()), p)
            } else {
                seq![s]
            },
            None => seq![s],
        }
    }
}

/// `str::split` with an empty pattern: an empty piece, each character, an
/// empty piece.
pub open spec fn split_empty(s: Seq<char>) -> Seq<Seq<char>> {
    seq![Seq::<char>::empty()] + s.map_values(|c: char| seq![c]) + seq![Seq::<char>::empty()]
}

/// `str::split(p)`.
pub open spec fn split_str(s: Seq<char>, p: Seq<char>) -> Seq<Seq<char>> {
    if p.len() == 0 {
        split_empty(s)
    } else {
        split_seq(s, p)
    }
}

/// `str::replacen(p, to, 1)`: the first occurrence of `p` replaced.
pub open spec fn replace_first(s: Seq<char>, p: Seq<char>, to: Seq<char>) -> Seq<char> {
    match find(s, p) {
        Some(i) => s.take(i) + to + s.skip(i + p.len()),
        None => s,
    }
}

/// `str::replace(p, to)` for a non-empty `p`: every non-overlapping
/// occurrence, left to right, replaced.
#[verifier::opaque]
pub open spec fn replace_all_seq(s: Seq<char>, p: Seq<char>, to: Seq<char>) -> Seq<char>
    decreases s.len(),
{
    if p.len() == 0 {
        s
    } else {
        match find(s, p) {
            Some(i) => if 0 <= i && i + p.len() <= s.len() {
                s.take(i) + to + replace_all_seq(s.skip(i + p.len()), p, to)
            } else {
                s
            },
            None => s,
        }
    }
}

/// `str::replace("", to)`: `to` before every character and at the end.
pub open spec fn replace_empty(s: Seq<char>, to: Seq<char>) -> Seq<char>
    decreases s.len(),
{
    if s.len() == 0 {
        to
    } else {
        replace_empty(s.drop_last(), to) + seq![s.last()] + to
    }
}

pub open spec fn replace_str(s: Seq<char>, p: Seq<char>, to: Seq<char>) -> Seq<char> {
    if p.len() == 0 {
        replace_empty(s, to)
    } else {
        replace_all_seq(s, p, to)
    }
}

/// `s` without leading characters satisfying `is_ws`.
pub open spec fn trim_start_ws(s: Seq<char>) -> Seq<char>
    decreases s.len(),
{
    if s.len() > 0 && is_ws(s[0]) {
        trim_start_ws(s.drop_first())
    } else {
        s
    }
}

/// `s` without trailing characters satisfying `is_ws`.
pub open spec fn trim_end_ws(s: Seq<char>) -> Seq<char>
    decreases s.len(),
{
    if s.len() > 0 && is_ws(s.last()) {
        trim_end_ws(s.drop_last())
    } else {
        s
    }
}

/// `str::trim`.
pub open spec fn trim_ws(s: Seq<char>) -> Seq<char> {
    trim_end_ws(trim_start_ws(s))
}

/// `s` without trailing newlines.
pub open spec fn trim_end_newlines(s: Seq<char>) -> Seq<char>
    decreases s.len(),
{
    if s.len() > 0 && s.last() == '\n' {
        trim_end_newlines(s.drop_last())
    } else {
        s
    }
}

/// `s` without one trailing carriage return.
pub open spec fn strip_cr(s: Seq<char>) -> Seq<char> {
    if s.len() > 0 && s.last() == '\r' {
        s.drop_last()
    } else {
        s
    }
}

/// `str::lines`: pieces ended by `\n` (with a `\r` before it removed); the
/// last piece needs no ending; an empty string has no lines.
#[verifier::opaque]
pub open spec fn lines_seq(s: Seq<char>) -> Seq<Seq<char>>
    decreases s.len(),
{
    if s.len() == 0 {
        Seq::empty()
    } else {
        match find(s, seq!['\n']) {
            Some(i) => if 0 <= i < s.len() {
                seq![strip_cr(s.take(i))] + lines_seq(s.skip(i + 1))
            } else {
                seq![s]
            },
            None => seq![s],
        }
    }
}

/// `str::split_whitespace`: the maximal runs of non-whitespace characters.
#[verifier::opaque]
pub open spec fn words(s: Seq<char>) -> Seq<Seq<char>>
    decreases s.len(),
{
    if s.len() == 0 {
        Seq::empty()
    } else if is_ws(s[0]) {
        words(s.drop_first())
    } else {
        let n = word_len(s);
        if 0 < n <= s.len() {
            seq![s.take(n)] + words(s.skip(n))
        } else {
            seq![s]
        }
    }
}

/// The length of the leading run of non-whitespace characters.
pub open spec fn word_len(s: Seq<char>) -> int
    decreases s.len(),
{
    if s.len() == 0 || is_ws(s[0]) {
        0
    } else {
        1 + word_len(s.drop_first())
    }
}

/// The characters of `cs[from..to]` as a string.
pub fn piece(cs: &Vec<char>, from: usize, to: usize) -> (s: String)
    requires
        from <= to <= cs@.len(),
    ensures
        s@ == cs@.subrange(from as int, to as int),
{
    chars_range_to_string(cs, from, to)
}

/// A search from `start` finds in `s` what a search finds in `s.skip(start)`.
proof fn lemma_find_skip(s: Seq<char>, p: Seq<char>, start: int, f: Option<int>)
    requires
        0 <= start <= s.len(),
        match f {
            Some(i) => start <= i && occurs_at(s, p, i) && forall|j: int|
                start <= j < i ==> !occurs_at(s, p, j),
            None => forall|j: int| start <= j ==> !occurs_at(s, p, j),
        },
    ensures
        find(s.skip(start), p) == match f {
            Some(i) => Some(i - start),
            None => None::<int>,
        },
{
    let t = s.skip(start);
    assert forall|j: int| 0 <= j implies #[trigger] occurs_at(t, p, j) == occurs_at(s, p, j + start) by {
        if j + p.len() <= t.len() {
            assert(t.subrange(j, j + p.len()) =~= s.subrange(j + start, j + start + p.len()));
        }
    }
    match f {
        Some(i) => {
            assert(occurs_at(t, p, i - start));
            assert forall|j: int| 0 <= j < i - start implies !occurs_at(t, p, j) by {
                assert(!occurs_at(s, p, j + start));
            }
            lemma_find(t, p, Some(i - start));
        },
        None => {
            assert forall|j: int| 0 <= j implies !occurs_at(t, p, j) by {
                assert(!occurs_at(s, p, j + start));
            }
            lemma_find(t, p, None);
        },
    }
}

/// One step of `split_seq` on the suffix from `start`, when the next
/// occurrence is at `i`.
proof fn lemma_split_step(s: Seq<char>, p: Seq<char>, start: int, i: int)
    requires
        p.len() > 0,
        0 <= start <= i,
        i + p.len() <= s.len(),
        find(s.skip(start), p) == Some(i - start),
    ensures
        split_seq(s.skip(start), p) == seq![s.subrange(start, i)] + split_seq(
            s.skip(i + p.len()),
            p,
        ),
{
    reveal(split_seq);
    let rest = s.skip(start);
    assert(rest.take(i - start) =~= s.subrange(start, i));
    assert(rest.skip(i - start + p.len()) =~= s.skip(i + p.len()));
}

/// The last step of `split_seq` on the suffix from `start`.
proof fn lemma_split_last(s: Seq<char>, p: Seq<char>, start: int)
    requires
        p.len() > 0,
        0 <= start <= s.len(),
        find(s.skip(start), p) == None::<int>,
    ensures
        split_seq(s.skip(start), p) == seq![s.skip(start)],
{
    reveal(split_seq);
}

/// Split `cs` at each occurrence of the non-empty `p`.
pub fn split_chars(cs: &Vec<char>, p: &Vec<char>) -> (out: Vec<String>)
    requires
        p@.len() > 0,
    ensures
        out@.len() == split_seq(cs@, p@).len(),
        forall|i: int| 0 <= i < out@.len() ==> #[trigger] out@[i]@ == split_seq(cs@, p@)[i],
{
    let mut out: Vec<String> = Vec::new();
    let ghost mut views: Seq<Seq<char>> = Seq::empty();
    let mut start: usize = 0;
    proof {
        assert(cs@.skip(0) =~= cs@);
        assert(views + split_seq(cs@, p@) =~= split_seq(cs@, p@));
    }
    loop
        invariant
            start <= cs@.len(),
            p@.len() > 0,
            views + split_seq(cs@.skip(start as int), p@) == split_seq(cs@, p@),
            out@.len() == views.len(),
            forall|i: int| 0 <= i < out@.len() ==> #[trigger] out@[i]@ == views[i],
        decreases cs@.len() - start,
    {
        let f = find_from(cs, p, start);
        proof {
            lemma_find_skip(
                cs@,
                p@,
                start as int,
                match f {
                    Some(i) => Some(i as int),
                    None => None,
                },
            );
        }
        match f {
            Some(i) => {
                assert(occurs_at(cs@, p@, i as int));
                assert(i + p@.len() <= cs@.len());
                let s = piece(cs, start, i);
                proof {
                    lemma_split_step(cs@, p@, start as int, i as int);
                    assert(views.push(s@) + split_seq(cs@.skip(i + p@.len()), p@) =~= views
                        + split_seq(cs@.skip(start as int), p@));
                    views = views.push(s@);
                }
                out.push(s);
                let plen = p.len();
                assert(i + plen <= cs.len());
                start = i + plen;
            },
            None => {
                let s = piece(cs, start, cs.len());
                proof {
                    lemma_split_last(cs@, p@, start as int);
                    assert(s@ =~= cs@.skip(start as int));
                    assert(views.push(s@) =~= views + split_seq(cs@.skip(start as int), p@));
                    views = views.push(s@);
                }
                out.push(s);
                return out;
            },
        }
    }
}


proof fn lemma_trim_start(s: Seq<char>, i: int)
    requires
        0 <= i <= s.len(),
        forall|k: int| 0 <= k < i ==> is_ws(#[trigger] s[k]),
        i == s.len() || !is_ws(s[i]),
    ensures
        trim_start_ws(s) == s.skip(i),
    decreases i,
{
    if i == 0 {
        assert(s.skip(0) =~= s);
    } else {
        let t = s.drop_first();
        assert forall|k: int| 0 <= k < i - 1 implies is_ws(#[trigger] t[k]) by {
            assert(is_ws(s[k + 1]));
        }
        lemma_trim_start(t, i - 1);
        assert(t.skip(i - 1) =~= s.skip(i));
    }
}

proof fn lemma_trim_end(s: Seq<char>, j: int)
    requires
        0 <= j <= s.len(),
        forall|k: int| j <= k < s.len() ==> is_ws(#[trigger] s[k]),
        j == 0 || !is_ws(s[j - 1]),
    ensures
        trim_end_ws(s) == s.take(j),
    decreases s.len() - j,
{
    if j == s.len() {
        assert(s.take(j) =~= s);
    } else {
        let t = s.drop_last();
        lemma_trim_end(t, j);
        assert(t.take(j) =~= s.take(j));
    }
}

/// The index of the first character of `cs[from..]` that is not whitespace
/// (`cs.len()` when there is none).
fn skip_ws(cs: &Vec<char>, from: usize) -> (i: usize)
    requires
        from <= cs@.len(),
    ensures
        from <= i <= cs@.len(),
        forall|k: int| from <= k < i ==> is_ws(#[trigger] cs@[k]),
        i == cs@.len() || !is_ws(cs@[i as int]),
{
    let mut i = from;
    while i < cs.len() && char_is_ws(cs[i])
        invariant
            from <= i <= cs@.len(),
            forall|k: int| from <= k < i ==> is_ws(#[trigger] cs@[k]),
        decreases cs@.len() - i,
    {
        i += 1;
    }
    i
}

/// `str::trim` on a character vector.
pub fn trim_chars(cs: &Vec<char>) -> (out: String)
    ensures
        out@ == trim_ws(cs@),
{
    let i = skip_ws(cs, 0);
    let mut j = cs.len();
    while j > i && char_is_ws(cs[j - 1])
        invariant
            i <= j <= cs@.len(),
            forall|k: int| j <= k < cs@.len() ==> is_ws(#[trigger] cs@[k]),
        decreases j,
    {
        j -= 1;
    }
    proof {
        lemma_trim_start(cs@, i as int);
        let t = cs@.skip(i as int);
        assert forall|k: int| j - i <= k < t.len() implies is_ws(#[trigger] t[k]) by {
            assert(is_ws(cs@[k + i]));
        }
        if j > i {
            assert(t[j - i - 1] == cs@[j - 1]);
        }
        lemma_trim_end(t, j - i);
        assert(t.take(j - i) =~= cs@.subrange(i as int, j as int));
    }
    piece(cs, i, j)
}

proof fn lemma_trim_newlines(s: Seq<char>, j: int)
    requires
        0 <= j <= s.len(),
        forall|k: int| j <= k < s.len() ==> #[trigger] s[k] == '\n',
        j == 0 || s[j - 1] != '\n',
    ensures
        trim_end_newlines(s) == s.take(j),
    decreases s.len() - j,
{
    if j == s.len() {
        assert(s.take(j) =~= s);
    } else {
        let t = s.drop_last();
        lemma_trim_newlines(t, j);
        assert(t.take(j) =~= s.take(j));
    }
}

/// `str::trim_end_matches('\n')` on a character vector.
pub fn chomp_chars(cs: &Vec<char>) -> (out: String)
    ensures
        out@ == trim_end_newlines(cs@),
{
    let mut j = cs.len();
    while j > 0 && cs[j - 1] == '\n'
        invariant
            j <= cs@.len(),
            forall|k: int| j <= k < cs@.len() ==> #[trigger] cs@[k] == '\n',
        decreases j,
    {
        j -= 1;
    }
    proof {
        lemma_trim_newlines(cs@, j as int);
        assert(cs@.take(j as int) =~= cs@.subrange(0, j as int));
    }
    piece(cs, 0, j)
}

/// Whether `p` is a prefix of `s`.
pub fn starts_with_chars(s: &Vec<char>, p: &Vec<char>) -> (r: bool)
    ensures
        r == is_prefix(p@, s@),
{
    let r = occurs_at_exec(s, p, 0);
    proof {
        if r {
            assert(occurs_at(s@, p@, 0));
        }
    }
    r
}

/// Whether `p` is a suffix of `s`.
pub fn ends_with_chars(s: &Vec<char>, p: &Vec<char>) -> (r: bool)
    ensures
        r == is_suffix(p@, s@),
{
    if p.len() > s.len() {
        return false;
    }
    occurs_at_exec(s, p, s.len() - p.len())
}

/// Whether `p` occurs in `s`.
pub fn contains_chars(s: &Vec<char>, p: &Vec<char>) -> (r: bool)
    ensures
        r == contains_seq(s@, p@),
{
    match find_from(s, p, 0) {
        Some(i) => true,
        None => {
            assert forall|j: int| !occurs_at(s@, p@, j) by {
                if j < 0 {
                }
            }
            false
        },
    }
}

// ── Integer parsing ─────────────────────────────────────────────────────────

/// The value of a decimal digit character.
pub open spec fn digit_value(c: char) -> Option<int> {
    if c == '0' {
        Some(0)
    } else if c == '1' {
        Some(1)
    } else if c == '2' {
        Some(2)
    } else if c == '3' {
        Some(3)
    } else if c == '4' {
        Some(4)
    } else if c == '5' {
        Some(5)
    } else if c == '6' {
        Some(6)
    } else if c == '7' {
        Some(7)
    } else if c == '8' {
        Some(8)
    } else if c == '9' {
        Some(9)
    } else {
        None
    }
}

/// Every character of `d` is a decimal digit.
pub open spec fn all_digits(d: Seq<char>) -> bool {
    forall|i: int| 0 <= i < d.len() ==> (#[trigger] digit_value(d[i])) is Some
}

/// The value of the decimal numeral `d`.
pub open spec fn numeral_value(d: Seq<char>) -> int
    decreases d.len(),
{
    if d.len() == 0 {
        0
    } else {
        numeral_value(d.drop_last()) * 10 + digit_value(d.last())->0
    }
}

/// `str::parse::<i64>`: an optional `+` or `-`, then one or more decimal
/// digits whose value fits in an `i64`.
pub open spec fn parse_i64(s: Seq<char>) -> Option<int> {
    let neg = s.len() > 0 && s[0] == '-';
    let digits = if s.len() > 0 && (s[0] == '-' || s[0] == '+') {
        s.drop_first()
    } else {
        s
    };
    if digits.len() == 0 || !all_digits(digits) {
        None
    } else {
        let v = if neg {
            -numeral_value(digits)
        } else {
            numeral_value(digits)
        };
        if i64::MIN <= v <= i64::MAX {
            Some(v)
        } else {
            None
        }
    }
}

fn digit_of_char(c: char) -> (d: Option<u8>)
    ensures
        match d {
            Some(v) => digit_value(c) == Some(v as int),
            None => digit_value(c) is None,
        },
{
    if c == '0' {
        Some(0)
    } else if c == '1' {
        Some(1)
    } else if c == '2' {
        Some(2)
    } else if c == '3' {
        Some(3)
    } else if c == '4' {
        Some(4)
    } else if c == '5' {
        Some(5)
    } else if c == '6' {
        Some(6)
    } else if c == '7' {
        Some(7)
    } else if c == '8' {
        Some(8)
    } else if c == '9' {
        Some(9)
    } else {
        None
    }
}

/// `str::parse::<i64>` on a character vector.
pub fn parse_i64_chars(cs: &Vec<char>) -> (r: Option<i64>)
    ensures
        match r {
            Some(v) => parse_i64(cs@) == Some(v as int),
            None => parse_i64(cs@) is None,
        },
{
    let n = cs.len();
    let neg = n > 0 && cs[0] == '-';
    let start: usize = if n > 0 && (cs[0] == '-' || cs[0] == '+') {
        1
    } else {
        0
    };
    let ghost digits = cs@.skip(start as int);
    proof {
        if start == 1 {
            assert(digits =~= cs@.drop_first());
        } else {
            assert(digits =~= cs@);
        }
    }
    if start == n {
        return None;
    }
    let mut m: u64 = 0;
    let mut too_big = false;
    let mut i = start;
    while i < n
        invariant
            start <= i <= n,
            n == cs@.len(),
            digits == cs@.skip(start as int),
            digits == (if cs@.len() > 0 && (cs@[0] == '-' || cs@[0] == '+') {
                cs@.drop_first()
            } else {
                cs@
            }),
            neg == (cs@.len() > 0 && cs@[0] == '-'),
            all_digits(cs@.subrange(start as int, i as int)),
            !too_big ==> m == numeral_value(cs@.subrange(start as int, i as int)),
            too_big ==> numeral_value(cs@.subrange(start as int, i as int)) > 9223372036854775808,
            m <= 9223372036854775808,
        decreases n - i,
    {
        let ghost pre = cs@.subrange(start as int, i as int);
        let ghost nxt = cs@.subrange(start as int, i + 1);
        assert(nxt.drop_last() =~= pre);
        match digit_of_char(cs[i]) {
            None => {
                assert(digits[i - start] == cs@[i as int]);
                assert(digit_value(digits[i - start]) is None);
                assert(!all_digits(digits));
                return None;
            },
            Some(d) => {
                assert forall|k: int| 0 <= k < nxt.len() implies (#[trigger] digit_value(
                    nxt[k],
                )) is Some by {
                    if k < pre.len() {
                        assert(nxt[k] == pre[k]);
                    }
                }
                if !too_big {
                    if m > 922337203685477580 || (m == 922337203685477580 && d > 8) {
                        too_big = true;
                    } else {
                        m = m * 10 + d as u64;
                    }
                }
            },
        }
        i += 1;
    }
    proof {
        assert(cs@.subrange(start as int, n as int) =~= digits);
    }
    if too_big {
        None
    } else if neg {
        if m == 9223372036854775808 {
            Some(i64::MIN)
        } else {
            Some(-(m as i64))
        }
    } else if m > 9223372036854775807 {
        None
    } else {
        Some(m as i64)
    }
}


// ── Building strings and lists of strings ───────────────────────────────────

/// Append the characters of `cs[from..to]` to `out`.
pub fn push_range(out: &mut String, cs: &Vec<char>, from: usize, to: usize)
    requires
        from <= to <= cs@.len(),
    ensures
        final(out)@ == old(out)@ + cs@.subrange(from as int, to as int),
{
    let mut i = from;
    while i < to
        invariant
            from <= i <= to <= cs@.len(),
            out@ == old(out)@ + cs@.subrange(from as int, i as int),
        decreases to - i,
    {
        string_push(out, cs[i]);
        i += 1;
        assert(out@ =~= old(out)@ + cs@.subrange(from as int, i as int));
    }
}

/// The views of `out` are `views`, one for one.
pub open spec fn strings_are(out: Seq<String>, views: Seq<Seq<char>>) -> bool {
    out.len() == views.len() && forall|i: int| 0 <= i < out.len() ==> #[trigger] out[i]@ == views[i]
}

proof fn lemma_word_len(s: Seq<char>, n: int)
    requires
        0 <= n <= s.len(),
        forall|k: int| 0 <= k < n ==> !is_ws(#[trigger] s[k]),
        n == s.len() || is_ws(s[n]),
    ensures
        word_len(s) == n,
    decreases n,
{
    if n > 0 {
        let t = s.drop_first();
        assert forall|k: int| 0 <= k < n - 1 implies !is_ws(#[trigger] t[k]) by {
            assert(!is_ws(s[k + 1]));
        }
        lemma_word_len(t, n - 1);
    }
}

proof fn lemma_words_ws(s: Seq<char>, i: int)
    requires
        0 <= i < s.len(),
        is_ws(s[i]),
    ensures
        words(s.skip(i)) == words(s.skip(i + 1)),
{
    reveal(words);
    assert(s.skip(i).drop_first() =~= s.skip(i + 1));
}

proof fn lemma_words_word(s: Seq<char>, i: int, j: int)
    requires
        0 <= i < j <= s.len(),
        forall|k: int| i <= k < j ==> !is_ws(#[trigger] s[k]),
        j == s.len() || is_ws(s[j]),
    ensures
        words(s.skip(i)) == seq![s.subrange(i, j)] + words(s.skip(j)),
{
    reveal(words);
    let t = s.skip(i);
    assert forall|k: int| 0 <= k < j - i implies !is_ws(#[trigger] t[k]) by {
        assert(!is_ws(s[k + i]));
    }
    if j < s.len() {
        assert(t[j - i] == s[j]);
    }
    lemma_word_len(t, j - i);
    assert(t.take(j - i) =~= s.subrange(i, j));
    assert(t.skip(j - i) =~= s.skip(j));
}

/// `str::split_whitespace` on a character vector.
pub fn words_chars(cs: &Vec<char>) -> (out: Vec<String>)
    ensures
        strings_are(out@, words(cs@)),
{
    let mut out: Vec<String> = Vec::new();
    let ghost mut views: Seq<Seq<char>> = Seq::empty();
    let mut i: usize = 0;
    proof {
        assert(cs@.skip(0) =~= cs@);
        assert(views + words(cs@) =~= words(cs@));
    }
    while i < cs.len()
        invariant
            i <= cs@.len(),
            views + words(cs@.skip(i as int)) == words(cs@),
            strings_are(out@, views),
        decreases cs@.len() - i,
    {
        if char_is_ws(cs[i]) {
            proof {
                lemma_words_ws(cs@, i as int);
            }
            i += 1;
        } else {
            let mut j = i + 1;
            while j < cs.len() && !char_is_ws(cs[j])
                invariant
                    i < j <= cs@.len(),
                    forall|k: int| i <= k < j ==> !is_ws(#[trigger] cs@[k]),
                decreases cs@.len() - j,
            {
                j += 1;
            }
            let w = piece(cs, i, j);
            proof {
                lemma_words_word(cs@, i as int, j as int);
                assert(views.push(w@) + words(cs@.skip(j as int)) =~= views + words(
                    cs@.skip(i as int),
                ));
                views = views.push(w@);
            }
            out.push(w);
            i = j;
        }
    }
    proof {
        reveal(words);
        assert(words(cs@.skip(i as int)) =~= Seq::<Seq<char>>::empty());
        assert(views =~= words(cs@));
    }
    out
}

#[verifier::spinoff_prover]
#[verifier::rlimit(40)]
proof fn lemma_lines_step(s: Seq<char>, start: int, i: int)
    requires
        0 <= start <= i < s.len(),
        find(s.skip(start), seq!['\n']) == Some(i - start),
    ensures
        lines_seq(s.skip(start)) == seq![strip_cr(s.subrange(start, i))] + lines_seq(
            s.skip(i + 1),
        ),
{
    reveal(lines_seq);
    let t = s.skip(start);
    assert(t.take(i - start) =~= s.subrange(start, i));
    assert(t.skip(i - start + 1) =~= s.skip(i + 1));
}

proof fn lemma_lines_last(s: Seq<char>, start: int)
    requires
        0 <= start < s.len(),
        find(s.skip(start), seq!['\n']) == None::<int>,
    ensures
        lines_seq(s.skip(start)) == seq![s.skip(start)],
{
    reveal(lines_seq);
}

/// `str::lines` on a character vector.
pub fn lines_chars(cs: &Vec<char>) -> (out: Vec<String>)
    ensures
        strings_are(out@, lines_seq(cs@)),
{
    let mut nl: Vec<char> = Vec::new();
    nl.push('\n');
    assert(nl@ =~= seq!['\n']);
    let mut out: Vec<String> = Vec::new();
    let ghost mut views: Seq<Seq<char>> = Seq::empty();
    let mut start: usize = 0;
    proof {
        assert(cs@.skip(0) =~= cs@);
        assert(views + lines_seq(cs@) =~= lines_seq(cs@));
    }
    while start < cs.len()
        invariant
            start <= cs@.len(),
            nl@ == seq!['\n'],
            views + lines_seq(cs@.skip(start as int)) == lines_seq(cs@),
            strings_are(out@, views),
        decreases cs@.len() - start,
    {
        let f = find_from(cs, &nl, start);
        proof {
            lemma_find_skip(
                cs@,
                nl@,
                start as int,
                match f {
                    Some(i) => Some(i as int),
                    None => None,
                },
            );
        }
        match f {
            Some(i) => {
                assert(occurs_at(cs@, nl@, i as int));
                let end = if i > start && cs[i - 1] == '\r' {
                    i - 1
                } else {
                    i
                };
                let l = piece(cs, start, end);
                proof {
                    lemma_lines_step(cs@, start as int, i as int);
                    assert(l@ =~= strip_cr(cs@.subrange(start as int, i as int)));
                    assert(views.push(l@) + lines_seq(cs@.skip(i + 1)) =~= views + lines_seq(
                        cs@.skip(start as int),
                    ));
                    views = views.push(l@);
                }
                out.push(l);
                start = i + 1;
            },
            None => {
                let l = piece(cs, start, cs.len());
                proof {
                    lemma_lines_last(cs@, start as int);
                    assert(l@ =~= cs@.skip(start as int));
                    assert(views.push(l@) =~= views + lines_seq(cs@.skip(start as int)));
                    views = views.push(l@);
                }
                out.push(l);
                return out;
            },
        }
    }
    proof {
        reveal(lines_seq);
        assert(lines_seq(cs@.skip(start as int)) =~= Seq::<Seq<char>>::empty());
        assert(views =~= lines_seq(cs@));
    }
    out
}


/// `str::replacen(p, to, 1)` on character vectors.
pub fn replace_first_chars(cs: &Vec<char>, p: &Vec<char>, to: &Vec<char>) -> (out: String)
    ensures
        out@ == replace_first(cs@, p@, to@),
{
    let f = find_from(cs, p, 0);
    proof {
        lemma_find_skip(
            cs@,
            p@,
            0,
            match f {
                Some(i) => Some(i as int),
                None => None,
            },
        );
        assert(cs@.skip(0) =~= cs@);
    }
    match f {
        Some(i) => {
            assert(occurs_at(cs@, p@, i as int));
            let mut out = String::new();
            push_range(&mut out, cs, 0, i);
            push_range(&mut out, to, 0, to.len());
            let plen = p.len();
            assert(i + plen <= cs.len());
            push_range(&mut out, cs, i + plen, cs.len());
            proof {
                assert(to@.subrange(0, to@.len() as int) =~= to@);
                assert(cs@.subrange(0, i as int) =~= cs@.take(i as int));
                assert(cs@.subrange(i + p@.len(), cs@.len() as int) =~= cs@.skip(i + p@.len()));
                assert(out@ =~= replace_first(cs@, p@, to@));
            }
            out
        },
        None => {
            let mut out = String::new();
            push_range(&mut out, cs, 0, cs.len());
            assert(out@ =~= cs@);
            out
        },
    }
}

proof fn lemma_replace_step(s: Seq<char>, p: Seq<char>, to: Seq<char>, start: int, i: int)
    requires
        p.len() > 0,
        0 <= start <= i,
        i + p.len() <= s.len(),
        find(s.skip(start), p) == Some(i - start),
    ensures
        replace_all_seq(s.skip(start), p, to) == s.subrange(start, i) + to + replace_all_seq(
            s.skip(i + p.len()),
            p,
            to,
        ),
{
    reveal(replace_all_seq);
    let rest = s.skip(start);
    assert(rest.take(i - start) =~= s.subrange(start, i));
    assert(rest.skip(i - start + p.len()) =~= s.skip(i + p.len()));
}

proof fn lemma_replace_last(s: Seq<char>, p: Seq<char>, to: Seq<char>, start: int)
    requires
        p.len() > 0,
        0 <= start <= s.len(),
        find(s.skip(start), p) == None::<int>,
    ensures
        replace_all_seq(s.skip(start), p, to) == s.skip(start),
{
    reveal(replace_all_seq);
}

/// `str::replace(p, to)` for a non-empty `p`, on character vectors.
pub fn replace_all_chars(cs: &Vec<char>, p: &Vec<char>, to: &Vec<char>) -> (out: String)
    requires
        p@.len() > 0,
    ensures
        out@ == replace_all_seq(cs@, p@, to@),
{
    let mut out = String::new();
    let mut start: usize = 0;
    proof {
        assert(cs@.skip(0) =~= cs@);
        assert(out@ + replace_all_seq(cs@, p@, to@) =~= replace_all_seq(cs@, p@, to@));
    }
    loop
        invariant
            start <= cs@.len(),
            p@.len() > 0,
            out@ + replace_all_seq(cs@.skip(start as int), p@, to@) == replace_all_seq(
                cs@,
                p@,
                to@,
            ),
        decreases cs@.len() - start,
    {
        let f = find_from(cs, p, start);
        proof {
            lemma_find_skip(
                cs@,
                p@,
                start as int,
                match f {
                    Some(i) => Some(i as int),
                    None => None,
                },
            );
        }
        match f {
            Some(i) => {
                assert(occurs_at(cs@, p@, i as int));
                let ghost before = out@;
                push_range(&mut out, cs, start, i);
                push_range(&mut out, to, 0, to.len());
                proof {
                    lemma_replace_step(cs@, p@, to@, start as int, i as int);
                    assert(to@.subrange(0, to@.len() as int) =~= to@);
                    assert(out@ + replace_all_seq(cs@.skip(i + p@.len()), p@, to@) =~= before
                        + replace_all_seq(cs@.skip(start as int), p@, to@));
                }
                let plen = p.len();
                assert(i + plen <= cs.len());
                start = i + plen;
            },
            None => {
                let ghost before = out@;
                push_range(&mut out, cs, start, cs.len());
                proof {
                    lemma_replace_last(cs@, p@, to@, start as int);
                    assert(out@ =~= before + replace_all_seq(cs@.skip(start as int), p@, to@));
                }
                return out;
            },
        }
    }
}

/// `str::replace("", to)` on character vectors.
pub fn replace_empty_chars(cs: &Vec<char>, to: &Vec<char>) -> (out: String)
    ensures
        out@ == replace_empty(cs@, to@),
{
    let mut out = String::new();
    push_range(&mut out, to, 0, to.len());
    assert(to@.subrange(0, to@.len() as int) =~= to@);
    assert(cs@.take(0) =~= Seq::<char>::empty());
    let mut i: usize = 0;
    while i < cs.len()
        invariant
            i <= cs@.len(),
            out@ == replace_empty(cs@.take(i as int), to@),
        decreases cs@.len() - i,
    {
        string_push(&mut out, cs[i]);
        push_range(&mut out, to, 0, to.len());
        proof {
            assert(to@.subrange(0, to@.len() as int) =~= to@);
            assert(cs@.take(i + 1).drop_last() =~= cs@.take(i as int));
            assert(cs@.take(i + 1).last() == cs@[i as int]);
        }
        i += 1;
        assert(out@ =~= replace_empty(cs@.take(i as int), to@));
    }
    assert(cs@.take(cs@.len() as int) =~= cs@);
    out
}

/// `str::split("")` on a character vector: an empty piece, each character,
/// an empty piece.
pub fn split_empty_chars(cs: &Vec<char>) -> (out: Vec<String>)
    ensures
        strings_are(out@, split_empty(cs@)),
{
    let mut out: Vec<String> = Vec::new();
    out.push(String::new());
    let each = singletons(cs);
    let mut i: usize = 0;
    while i < each.len()
        invariant
            i <= each@.len(),
            each@.len() == cs@.len(),
            forall|k: int| 0 <= k < each@.len() ==> #[trigger] each@[k]@ == seq![cs@[k]],
            out@.len() == i + 1,
            out@[0]@ == Seq::<char>::empty(),
            forall|k: int| 0 <= k < i ==> #[trigger] out@[k + 1]@ == seq![cs@[k]],
        decreases each@.len() - i,
    {
        let mut s = String::new();
        push_range(&mut s, cs, i, i + 1);
        assert(s@ =~= seq![cs@[i as int]]);
        out.push(s);
        i += 1;
    }
    out.push(String::new());
    proof {
        let v = split_empty(cs@);
        assert forall|k: int| 0 <= k < out@.len() implies #[trigger] out@[k]@ == v[k] by {
            if k == 0 {
            } else if k <= cs@.len() {
                assert(out@[(k - 1) + 1]@ == seq![cs@[k - 1]]);
            }
        }
    }
    out
}

/// Each character of `cs` as a one-character string.
pub fn singletons(cs: &Vec<char>) -> (out: Vec<String>)
    ensures
        out@.len() == cs@.len(),
        forall|k: int| 0 <= k < out@.len() ==> #[trigger] out@[k]@ == seq![cs@[k]],
{
    let mut out: Vec<String> = Vec::new();
    let mut i: usize = 0;
    while i < cs.len()
        invariant
            i <= cs@.len(),
            out@.len() == i,
            forall|k: int| 0 <= k < i ==> #[trigger] out@[k]@ == seq![cs@[k]],
        decreases cs@.len() - i,
    {
        let mut s = String::new();
        string_push(&mut s, cs[i]);
        assert(s@ =~= seq![cs@[i as int]]);
        out.push(s);
        i += 1;
    }
    out
}

/// The characters of `cs` in reverse order.
pub fn reverse_chars(cs: &Vec<char>) -> (out: String)
    ensures
        out@ == cs@.reverse(),
{
    let mut out = String::new();
    let mut i = cs.len();
    while i > 0
        invariant
            i <= cs@.len(),
            out@ == cs@.skip(i as int).reverse(),
        decreases i,
    {
        i -= 1;
        string_push(&mut out, cs[i]);
        assert(out@ =~= cs@.skip(i as int).reverse());
    }
    assert(cs@.skip(0) =~= cs@);
    out
}

/// A line as read from a stream: one ending `\n` removed, and then one `\r`
/// before it.
pub open spec fn chomp_line_spec(s: Seq<char>) -> Seq<char> {
    if s.len() > 0 && s.last() == '\n' {
        let t = s.drop_last();
        if t.len() > 0 && t.last() == '\r' {
            t.drop_last()
        } else {
            t
        }
    } else {
        s
    }
}

/// Strip the line ending of a line read from a stream (see `chomp_line_spec`).
pub fn chomp_line(s: &str) -> (r: String)
    ensures
        r@ == chomp_line_spec(s@),
{
    let cs = str_to_chars(s);
    let mut end = cs.len();
    if end > 0 && cs[end - 1] == '\n' {
        end -= 1;
        if end > 0 && cs[end - 1] == '\r' {
            end -= 1;
        }
    }
    let r = chars_range_to_string(&cs, 0, end);
    assert(r@ =~= chomp_line_spec(s@));
    r
}

} // verus!
