//! Character-level text utilities.
//!
//! All parsing in this crate works over `Vec<char>` values whose views are
//! `Seq<char>`, so that every split, trim and scan can be specified exactly.
//! The only trusted item here is the conversion from a vector of characters
//! back to a `String`.

use vstd::prelude::*;

verus! {

/// The whitespace characters this crate recognizes: the ASCII ones.
pub open spec fn is_space(c: char) -> bool {
    c == ' ' || c == '\t' || c == '\n' || c == '\r' || c == '\u{b}' || c == '\u{c}'
}

/// Executable test matching [`is_space`].
pub fn space(c: char) -> (r: bool)
    ensures
        r == is_space(c),
{
    c == ' ' || c == '\t' || c == '\n' || c == '\r' || c == '\u{b}' || c == '\u{c}'
}

/// Collect the characters of a string slice into a vector.
pub fn chars_of(s: &str) -> (r: Vec<char>)
    ensures
        r@ == s@,
{
    let n = s.unicode_len();
    let mut r: Vec<char> = Vec::new();
    let mut i: usize = 0;
    while i < n
        invariant
            i <= n,
            n == s@.len(),
            r@ == s@.subrange(0, i as int),
        decreases n - i,
    {
        r.push(s.get_char(i));
        i = i + 1;
        proof {
            assert(r@ =~= s@.subrange(0, i as int));
        }
    }
    proof {
        assert(r@ =~= s@);
    }
    r
}

/// Build a `String` from a vector of characters.
///
/// Relies on `String: FromIterator<char>` of std: collecting characters
/// yields the string of exactly those characters in order.
#[verifier::external_body]
pub fn string_of(v: &Vec<char>) -> (r: String)
    ensures
        r@ == v@,
{
    v.iter().collect()
}

/// Copy of the subrange `[i, j)` of a vector of characters.
pub fn subvec(v: &Vec<char>, i: usize, j: usize) -> (r: Vec<char>)
    requires
        i <= j <= v@.len(),
    ensures
        r@ == v@.subrange(i as int, j as int),
{
    let mut r: Vec<char> = Vec::new();
    let mut k: usize = i;
    while k < j
        invariant
            i <= k <= j <= v@.len(),
            r@ == v@.subrange(i as int, k as int),
        decreases j - k,
    {
        r.push(v[k]);
        k = k + 1;
        proof {
            assert(r@ =~= v@.subrange(i as int, k as int));
        }
    }
    r
}

/// First index at or after `from` whose character is not a space, or the
/// length if all remaining characters are spaces.
pub open spec fn first_non_space_at(s: Seq<char>, from: int) -> int
    recommends
        0 <= from <= s.len(),
    decreases s.len() - from when 0 <= from <= s.len()
{
    if from >= s.len() {
        s.len() as int
    } else if is_space(s[from]) {
        first_non_space_at(s, from + 1)
    } else {
        from
    }
}

/// Last index strictly below `upto` whose character is not a space, plus one;
/// zero if none is.
pub open spec fn last_non_space_below(s: Seq<char>, upto: int) -> int
    recommends
        0 <= upto <= s.len(),
    decreases upto when 0 <= upto
{
    if upto <= 0 {
        0
    } else if is_space(s[upto - 1]) {
        last_non_space_below(s, upto - 1)
    } else {
        upto
    }
}

/// The string with leading and trailing whitespace removed.
pub open spec fn trim(s: Seq<char>) -> Seq<char> {
    let lo = first_non_space_at(s, 0);
    let hi = last_non_space_below(s, s.len() as int);
    if lo <= hi {
        s.subrange(lo, hi)
    } else {
        Seq::empty()
    }
}

proof fn lemma_first_non_space_bounds(s: Seq<char>, from: int)
    requires
        0 <= from <= s.len(),
    ensures
        from <= first_non_space_at(s, from) <= s.len(),
        forall|k: int| from <= k < first_non_space_at(s, from) ==> is_space(s[k]),
        first_non_space_at(s, from) < s.len() ==> !is_space(s[first_non_space_at(s, from)]),
    decreases s.len() - from,
{
    if from < s.len() && is_space(s[from]) {
        lemma_first_non_space_bounds(s, from + 1);
    }
}

proof fn lemma_last_non_space_bounds(s: Seq<char>, upto: int)
    requires
        0 <= upto <= s.len(),
    ensures
        0 <= last_non_space_below(s, upto) <= upto,
        forall|k: int| last_non_space_below(s, upto) <= k < upto ==> is_space(s[k]),
        last_non_space_below(s, upto) > 0 ==> !is_space(s[last_non_space_below(s, upto) - 1]),
    decreases upto,
{
    if upto > 0 && is_space(s[upto - 1]) {
        lemma_last_non_space_bounds(s, upto - 1);
    }
}

proof fn lemma_last_all_space(s: Seq<char>, upto: int)
    requires
        0 <= upto <= s.len(),
        forall|k: int| 0 <= k < upto ==> is_space(s[k]),
    ensures
        last_non_space_below(s, upto) == 0,
    decreases upto,
{
    if upto > 0 {
        lemma_last_all_space(s, upto - 1);
    }
}

/// Trimming never lengthens a string.
pub proof fn lemma_trim_len(s: Seq<char>)
    ensures
        trim(s).len() <= s.len(),
{
    lemma_first_non_space_bounds(s, 0);
    lemma_last_non_space_bounds(s, s.len() as int);
}

/// Executable trim matching [`trim`].
pub fn trim_vec(v: &Vec<char>) -> (r: Vec<char>)
    ensures
        r@ == trim(v@),
{
    let n = v.len();
    let mut lo: usize = 0;
    while lo < n && space(v[lo])
        invariant
            lo <= n,
            n == v@.len(),
            first_non_space_at(v@, 0) == first_non_space_at(v@, lo as int),
        decreases n - lo,
    {
        lo = lo + 1;
    }
    let mut hi: usize = n;
    while hi > lo && space(v[hi - 1])
        invariant
            lo <= hi <= n,
            n == v@.len(),
            last_non_space_below(v@, n as int) == last_non_space_below(v@, hi as int),
            first_non_space_at(v@, 0) == lo,
        decreases hi,
    {
        hi = hi - 1;
    }
    proof {
        lemma_first_non_space_bounds(v@, 0);
        lemma_first_non_space_bounds(v@, lo as int);
        lemma_last_non_space_bounds(v@, v@.len() as int);
        lemma_last_non_space_bounds(v@, hi as int);
        assert(first_non_space_at(v@, lo as int) == lo);
        if hi == lo && lo > 0 {
            lemma_last_all_space(v@, lo as int);
        }
    }
    if lo <= hi {
        let r = subvec(v, lo, hi);
        proof {
            assert(r@ =~= trim(v@));
        }
        r
    } else {
        let r: Vec<char> = Vec::new();
        proof {
            assert(r@ =~= trim(v@));
        }
        r
    }
}

/// First index at or after `from` where `c` occurs, or the length.
pub open spec fn find_at(s: Seq<char>, c: char, from: int) -> int
    recommends
        0 <= from <= s.len(),
    decreases s.len() - from when 0 <= from <= s.len()
{
    if from >= s.len() {
        s.len() as int
    } else if s[from] == c {
        from
    } else {
        find_at(s, c, from + 1)
    }
}

pub proof fn lemma_find_at(s: Seq<char>, c: char, from: int)
    requires
        0 <= from <= s.len(),
    ensures
        from <= find_at(s, c, from) <= s.len(),
        forall|k: int| from <= k < find_at(s, c, from) ==> s[k] != c,
        find_at(s, c, from) < s.len() ==> s[find_at(s, c, from)] == c,
    decreases s.len() - from,
{
    if from < s.len() && s[from] != c {
        lemma_find_at(s, c, from + 1);
    }
}

/// Executable search matching [`find_at`] from the start.
pub fn find_char(v: &Vec<char>, c: char) -> (r: usize)
    ensures
        r == find_at(v@, c, 0),
{
    let n = v.len();
    let mut i: usize = 0;
    while i < n && v[i] != c
        invariant
            i <= n,
            n == v@.len(),
            find_at(v@, c, 0) == find_at(v@, c, i as int),
        decreases n - i,
    {
        i = i + 1;
    }
    i
}

/// Split at the first occurrence of `c`: the pair of what stands before and
/// after it, or `None` when `c` does not occur.  This is `splitn(2, c)`.
pub open spec fn split_first(s: Seq<char>, c: char) -> Option<(Seq<char>, Seq<char>)> {
    let i = find_at(s, c, 0);
    if i < s.len() {
        Some((s.subrange(0, i), s.subrange(i + 1, s.len() as int)))
    } else {
        None
    }
}

/// Executable split matching [`split_first`].
pub fn split_first_vec(v: &Vec<char>, c: char) -> (r: Option<(Vec<char>, Vec<char>)>)
    ensures
        match r {
            Some(p) => split_first(v@, c) == Some((p.0@, p.1@)),
            None => split_first(v@, c) is None,
        },
{
    let i = find_char(v, c);
    proof {
        lemma_find_at(v@, c, 0);
    }
    if i < v.len() {
        Some((subvec(v, 0, i), subvec(v, i + 1, v.len())))
    } else {
        None
    }
}

/// Split on every occurrence of `c`, keeping empty parts, as `str::split`
/// does: the result always has one part more than there are occurrences.
pub open spec fn split_all(s: Seq<char>, c: char) -> Seq<Seq<char>>
    decreases s.len(),
    via split_all_dec
{
    match split_first(s, c) {
        Some(p) => seq![p.0].add(split_all(p.1, c)),
        None => seq![s],
    }
}

#[via_fn]
proof fn split_all_dec(s: Seq<char>, c: char) {
    lemma_find_at(s, c, 0);
}

/// Executable split matching [`split_all`].
pub fn split_all_vec(v: &Vec<char>, c: char) -> (r: Vec<Vec<char>>)
    ensures
        r@.map_values(|p: Vec<char>| p@) == split_all(v@, c),
        r@.len() >= 1,
    decreases v@.len(),
{
    let mut r: Vec<Vec<char>> = Vec::new();
    match split_first_vec(v, c) {
        Some(p) => {
            proof {
                lemma_find_at(v@, c, 0);
            }
            r.push(p.0);
            let mut rest = split_all_vec(&p.1, c);
            r.append(&mut rest);
            proof {
                assert(r@.map_values(|p: Vec<char>| p@) =~= split_all(v@, c));
            }
        },
        None => {
            let copy = subvec(v, 0, v.len());
            proof {
                assert(copy@ =~= v@);
            }
            r.push(copy);
            proof {
                assert(r@.map_values(|p: Vec<char>| p@) =~= split_all(v@, c));
            }
        },
    }
    r
}

/// First index at or after `from` whose character is a space, or the length.
pub open spec fn first_space_at(s: Seq<char>, from: int) -> int
    recommends
        0 <= from <= s.len(),
    decreases s.len() - from when 0 <= from <= s.len()
{
    if from >= s.len() {
        s.len() as int
    } else if is_space(s[from]) {
        from
    } else {
        first_space_at(s, from + 1)
    }
}

pub proof fn lemma_first_space_at(s: Seq<char>, from: int)
    requires
        0 <= from <= s.len(),
    ensures
        from <= first_space_at(s, from) <= s.len(),
        forall|k: int| from <= k < first_space_at(s, from) ==> !is_space(s[k]),
        first_space_at(s, from) < s.len() ==> is_space(s[first_space_at(s, from)]),
    decreases s.len() - from,
{
    if from < s.len() && !is_space(s[from]) {
        lemma_first_space_at(s, from + 1);
    }
}

/// Split into maximal runs of non-space characters, as `str::split_whitespace`
/// does over ASCII whitespace.
pub open spec fn split_ws(s: Seq<char>) -> Seq<Seq<char>>
    decreases s.len(),
    via split_ws_dec
{
    let i = first_non_space_at(s, 0);
    if i >= s.len() {
        Seq::empty()
    } else {
        let j = first_space_at(s, i);
        if i < j <= s.len() {
            seq![s.subrange(i, j)].add(split_ws(s.subrange(j, s.len() as int)))
        } else {
            Seq::empty()
        }
    }
}

#[via_fn]
proof fn split_ws_dec(s: Seq<char>) {
    lemma_first_non_space_bounds(s, 0);
    let i = first_non_space_at(s, 0);
    if i < s.len() {
        lemma_first_space_at(s, i);
    }
}

/// Executable split matching [`split_ws`].
pub fn split_ws_vec(v: &Vec<char>) -> (r: Vec<Vec<char>>)
    ensures
        r@.map_values(|p: Vec<char>| p@) == split_ws(v@),
    decreases v@.len(),
{
    proof {
        lemma_first_non_space_bounds(v@, 0);
    }
    let n = v.len();
    let mut i: usize = 0;
    while i < n && space(v[i])
        invariant
            i <= n,
            n == v@.len(),
            first_non_space_at(v@, 0) == first_non_space_at(v@, i as int),
        decreases n - i,
    {
        i = i + 1;
    }
    assert(i == first_non_space_at(v@, 0));
    let mut r: Vec<Vec<char>> = Vec::new();
    if i >= n {
        proof {
            assert(r@.map_values(|p: Vec<char>| p@) =~= split_ws(v@));
        }
        return r;
    }
    let mut j: usize = i;
    while j < n && !space(v[j])
        invariant
            i <= j <= n,
            n == v@.len(),
            first_space_at(v@, i as int) == first_space_at(v@, j as int),
        decreases n - j,
    {
        j = j + 1;
    }
    assert(j == first_space_at(v@, i as int));
    proof {
        lemma_first_space_at(v@, i as int);
    }
    r.push(subvec(v, i, j));
    let tail = subvec(v, j, n);
    let mut rest = split_ws_vec(&tail);
    r.append(&mut rest);
    proof {
        assert(r@.map_values(|p: Vec<char>| p@) =~= split_ws(v@));
    }
    r
}

/// Whether `s` begins with the prefix `p`.
pub open spec fn starts_with(s: Seq<char>, p: Seq<char>) -> bool {
    p.len() <= s.len() && s.subrange(0, p.len() as int) == p
}

/// Executable prefix test matching [`starts_with`].
pub fn starts_with_vec(v: &Vec<char>, p: &Vec<char>) -> (r: bool)
    ensures
        r == starts_with(v@, p@),
{
    if p.len() > v.len() {
        assert(!starts_with(v@, p@));
        return false;
    }
    let mut i: usize = 0;
    while i < p.len()
        invariant
            i <= p@.len() <= v@.len(),
            forall|k: int| 0 <= k < i ==> v@[k] == p@[k],
        decreases p@.len() - i,
    {
        if v[i] != p[i] {
            assert(v@.subrange(0, p@.len() as int)[i as int] != p@[i as int]);
            return false;
        }
        i = i + 1;
    }
    proof {
        assert(v@.subrange(0, p@.len() as int) =~= p@);
    }
    true
}

/// Whether two character vectors hold the same characters.
pub fn eq_chars(a: &Vec<char>, b: &Vec<char>) -> (r: bool)
    ensures
        r == (a@ == b@),
{
    if a.len() != b.len() {
        return false;
    }
    let mut i: usize = 0;
    while i < a.len()
        invariant
            i <= a@.len(),
            a@.len() == b@.len(),
            forall|k: int| 0 <= k < i ==> a@[k] == b@[k],
        decreases a@.len() - i,
    {
        if a[i] != b[i] {
            return false;
        }
        i = i + 1;
    }
    proof {
        assert(a@ =~= b@);
    }
    true
}

/// ASCII upper-casing of one character.  (Case folding outside ASCII is left
/// to the characters themselves: they pass through unchanged.)
pub open spec fn up_char(c: char) -> char {
    if 97 <= c as u32 <= 122 {
        (((c as u32) - 32) as u8) as char
    } else {
        c
    }
}

/// ASCII upper-casing of a whole string.
pub open spec fn upper(s: Seq<char>) -> Seq<char> {
    s.map_values(|c: char| up_char(c))
}

/// Executable upper-casing matching [`upper`].
pub fn upper_vec(v: &Vec<char>) -> (r: Vec<char>)
    ensures
        r@ == upper(v@),
{
    let mut r: Vec<char> = Vec::new();
    let mut i: usize = 0;
    while i < v.len()
        invariant
            i <= v@.len(),
            r@ == upper(v@).subrange(0, i as int),
        decreases v@.len() - i,
    {
        let c = v[i];
        let cv = c as u32;
        if 97 <= cv && cv <= 122 {
            r.push(((cv - 32) as u8) as char);
        } else {
            r.push(c);
        }
        i = i + 1;
        proof {
            assert(r@ =~= upper(v@).subrange(0, i as int));
        }
    }
    proof {
        assert(r@ =~= upper(v@));
    }
    r
}

/// Whether `c` is an ASCII decimal digit.
pub open spec fn is_digit(c: char) -> bool {
    48 <= c as u32 <= 57
}

/// Executable digit test matching [`is_digit`].
pub fn digit(c: char) -> (r: bool)
    ensures
        r == is_digit(c),
{
    let v = c as u32;
    48 <= v && v <= 57
}

/// Whether every character of `s` is a decimal digit.
pub open spec fn all_digits(s: Seq<char>) -> bool {
    forall|k: int| 0 <= k < s.len() ==> is_digit(s[k])
}

/// Numeric value of an all-digit string (most significant first).
pub open spec fn dec_val(s: Seq<char>) -> int
    decreases s.len(),
{
    if s.len() == 0 {
        0
    } else {
        dec_val(s.drop_last()) * 10 + (s.last() as u32 - 48)
    }
}

pub proof fn lemma_dec_val_nonneg(s: Seq<char>)
    requires
        all_digits(s),
    ensures
        dec_val(s) >= 0,
    decreases s.len(),
{
    if s.len() > 0 {
        assert(all_digits(s.drop_last())) by {
            assert(forall|k: int| 0 <= k < s.len() - 1 ==> s.drop_last()[k] == s[k]);
        }
        lemma_dec_val_nonneg(s.drop_last());
    }
}

/// The value of a non-empty all-digit string, within `0..=max`.
pub open spec fn parse_digits(s: Seq<char>, max: int) -> Option<int> {
    if s.len() == 0 || !all_digits(s) {
        None
    } else if dec_val(s) > max {
        None
    } else {
        Some(dec_val(s))
    }
}

/// The value of a decimal string as `str::parse` reads an unsigned integer:
/// an optional leading `+`, then one or more digits, within `0..=max`.
pub open spec fn parse_unsigned(s: Seq<char>, max: int) -> Option<int> {
    let body = if s.len() > 0 && s[0] == '+' {
        s.subrange(1, s.len() as int)
    } else {
        s
    };
    parse_digits(body, max)
}

/// The value of a decimal string as `str::parse` reads an `i64`: an optional
/// sign, then one or more digits, within the range of `i64`.
pub open spec fn parse_signed_i64(s: Seq<char>) -> Option<int> {
    let has_sign = s.len() > 0 && (s[0] == '-' || s[0] == '+');
    let neg = s.len() > 0 && s[0] == '-';
    let body = if has_sign {
        s.subrange(1, s.len() as int)
    } else {
        s
    };
    if body.len() == 0 || !all_digits(body) {
        None
    } else {
        let m = if neg {
            -dec_val(body)
        } else {
            dec_val(body)
        };
        if m < -0x8000000000000000 || m > 0x7fffffffffffffff {
            None
        } else {
            Some(m)
        }
    }
}

/// Executable parser for the digits of `v` starting at `from`, matching
/// [`parse_digits`] on that suffix, with a bound of at least 9.
pub fn parse_digits_from(v: &Vec<char>, from: usize, max: u64) -> (r: Option<u64>)
    requires
        from <= v@.len(),
        max >= 9,
    ensures
        match r {
            Some(x) => parse_digits(v@.subrange(from as int, v@.len() as int), max as int)
                == Some(x as int),
            None => parse_digits(v@.subrange(from as int, v@.len() as int), max as int) is None,
        },
{
    let start: usize = from;
    let ghost body = v@.subrange(from as int, v@.len() as int);
    if v.len() == start {
        assert(body.len() == 0);
        return None;
    }
    let mut acc: u64 = 0;
    let mut over: bool = false;
    let mut i: usize = start;
    while i < v.len()
        invariant
            max >= 9,
            start <= i <= v@.len(),
            start == from,
            body == v@.subrange(from as int, v@.len() as int),
            body.len() == v@.len() - start,
            forall|k: int| 0 <= k < body.len() ==> body[k] == v@[k + start],
            all_digits(body.subrange(0, i - start)),
            !over ==> acc == dec_val(body.subrange(0, i - start)) && acc <= max,
            over ==> dec_val(body.subrange(0, i - start)) > max,
        decreases v@.len() - i,
    {
        let c = v[i];
        if !digit(c) {
            assert(!all_digits(body)) by {
                assert(body[i - start] == v@[i as int]);
                assert(!is_digit(body[i - start]));
            }
            return None;
        }
        let cu: u32 = c as u32;
        assert(48 <= cu <= 57);
        let d: u64 = (cu - 48) as u64;
        assert(d <= 9);
        let ghost prefix = body.subrange(0, i - start);
        let ghost prefix2 = body.subrange(0, i + 1 - start);
        proof {
            assert(prefix2.drop_last() =~= prefix);
            assert(prefix2.last() == v@[i as int]);
            assert(all_digits(prefix2));
            lemma_dec_val_nonneg(prefix);
        }
        if over {
            proof {
                assert(dec_val(prefix2) == dec_val(prefix) * 10 + (v@[i as int] as u32 - 48));
                assert(dec_val(prefix) * 10 >= dec_val(prefix)) by (nonlinear_arith)
                    requires
                        dec_val(prefix) >= 0,
                ;
            }
        } else {
            let q: u64 = (max - d) / 10;
            proof {
                vstd::arithmetic::div_mod::lemma_fundamental_div_mod((max - d) as int, 10);
                assert(q * 10 <= max - d < q * 10 + 10);
                assert(dec_val(prefix2) == acc * 10 + d as int);
            }
            if acc > q {
                proof {
                    assert(acc * 10 >= (q + 1) * 10) by (nonlinear_arith)
                        requires
                            acc >= q + 1,
                    ;
                }
                over = true;
            } else {
                proof {
                    assert(acc * 10 <= q * 10) by (nonlinear_arith)
                        requires
                            0 <= acc <= q,
                    ;
                }
                acc = acc * 10 + d;
            }
        }
        i = i + 1;
    }
    proof {
        assert(body.subrange(0, body.len() as int) =~= body);
    }
    if over {
        None
    } else {
        Some(acc)
    }
}

/// Executable unsigned decimal parser matching [`parse_unsigned`].
pub fn parse_u64_bounded(v: &Vec<char>, max: u64) -> (r: Option<u64>)
    requires
        max >= 9,
    ensures
        match r {
            Some(x) => parse_unsigned(v@, max as int) == Some(x as int),
            None => parse_unsigned(v@, max as int) is None,
        },
{
    let from: usize = if v.len() > 0 && v[0] == '+' {
        1
    } else {
        0
    };
    proof {
        if !(v@.len() > 0 && v@[0] == '+') {
            assert(v@.subrange(0, v@.len() as int) =~= v@);
        }
    }
    parse_digits_from(v, from, max)
}

/// Executable signed decimal parser matching [`parse_signed_i64`].
pub fn parse_i64_vec(v: &Vec<char>) -> (r: Option<i64>)
    ensures
        match r {
            Some(x) => parse_signed_i64(v@) == Some(x as int),
            None => parse_signed_i64(v@) is None,
        },
{
    let has_sign = v.len() > 0 && (v[0] == '-' || v[0] == '+');
    let neg = v.len() > 0 && v[0] == '-';
    let from: usize = if has_sign {
        1
    } else {
        0
    };
    proof {
        if !has_sign {
            assert(v@.subrange(0, v@.len() as int) =~= v@);
        }
    }
    let bound: u64 = if neg {
        0x8000000000000000
    } else {
        0x7fffffffffffffff
    };
    match parse_digits_from(v, from, bound) {
        None => {
            proof {
                let body = if has_sign {
                    v@.subrange(1, v@.len() as int)
                } else {
                    v@
                };
                if body.len() > 0 && all_digits(body) {
                    lemma_dec_val_nonneg(body);
                }
            }
            None
        },
        Some(m) => {
            if neg {
                if m == 0x8000000000000000 {
                    Some(-0x7fffffffffffffff - 1)
                } else {
                    Some(-(m as i64))
                }
            } else {
                Some(m as i64)
            }
        },
    }
}

/// The decimal rendering of a non-negative number, most significant digit
/// first, no sign and no leading zeros.
pub open spec fn dec_str(n: int) -> Seq<char>
    recommends
        n >= 0,
    decreases n when n >= 0
{
    if n < 10 {
        seq![((n + 48) as u8) as char]
    } else {
        dec_str(n / 10).push(((n % 10 + 48) as u8) as char)
    }
}

pub proof fn lemma_dec_str_digits(n: int)
    requires
        n >= 0,
    ensures
        dec_str(n).len() >= 1,
        all_digits(dec_str(n)),
        dec_val(dec_str(n)) == n,
        dec_str(n)[0] != '+' && dec_str(n)[0] != '-',
    decreases n,
{
    if n < 10 {
        let c = ((n + 48) as u8) as char;
        assert(c as u32 == n + 48);
        let s = dec_str(n);
        assert(s == seq![c]);
        assert(s.drop_last() =~= Seq::<char>::empty());
        assert(dec_val(s) == dec_val(s.drop_last()) * 10 + (s.last() as u32 - 48));
        assert(s.last() == c);
    } else {
        lemma_dec_str_digits(n / 10);
        let s = dec_str(n);
        let p = dec_str(n / 10);
        let c = ((n % 10 + 48) as u8) as char;
        assert(c as u32 == n % 10 + 48);
        assert(s == p.push(c));
        assert(s.drop_last() =~= p);
        assert(s.last() == c);
        assert(dec_val(s) == dec_val(p) * 10 + (c as u32 - 48));
        assert(n / 10 * 10 + n % 10 == n) by {
            vstd::arithmetic::div_mod::lemma_fundamental_div_mod(n, 10);
        }
        assert(forall|k: int| 0 <= k < s.len() - 1 ==> s[k] == p[k]);
    }
}

/// Executable decimal rendering matching [`dec_str`].
pub fn render_u64(n: u64) -> (r: Vec<char>)
    ensures
        r@ == dec_str(n as int),
    decreases n,
{
    proof {
        lemma_dec_str_digits(n as int);
    }
    if n < 10 {
        let c = ((n + 48) as u8) as char;
        let mut r: Vec<char> = Vec::new();
        r.push(c);
        proof {
            assert(r@ =~= dec_str(n as int));
        }
        r
    } else {
        let mut r = render_u64(n / 10);
        let c = ((n % 10 + 48) as u8) as char;
        r.push(c);
        proof {
            assert(r@ =~= dec_str(n as int));
        }
        r
    }
}

/// Whether the two-character sequence `a`,`b` occurs in `s`.
pub open spec fn contains2(s: Seq<char>, a: char, b: char) -> bool {
    exists|k: int| 0 <= k && k + 1 < s.len() && (#[trigger] s[k]) == a && s[k + 1] == b
}

/// Executable search matching [`contains2`].
pub fn contains2_vec(v: &Vec<char>, a: char, b: char) -> (r: bool)
    ensures
        r == contains2(v@, a, b),
{
    if v.len() < 2 {
        return false;
    }
    let mut i: usize = 0;
    while i < v.len() - 1
        invariant
            v@.len() >= 2,
            i + 1 <= v@.len(),
            forall|k: int| 0 <= k && k + 1 < i + 1 ==> !((#[trigger] v@[k]) == a && v@[k + 1] == b),
        decreases v@.len() - i,
    {
        if v[i] == a && v[i + 1] == b {
            return true;
        }
        i = i + 1;
    }
    false
}

/// First index at or after `from` whose character is not `c`, or the length.
pub open spec fn first_not_char_at(s: Seq<char>, c: char, from: int) -> int
    recommends
        0 <= from <= s.len(),
    decreases s.len() - from when 0 <= from <= s.len()
{
    if from >= s.len() {
        s.len() as int
    } else if s[from] == c {
        first_not_char_at(s, c, from + 1)
    } else {
        from
    }
}

/// Last index strictly below `upto` whose character is not `c`, plus one;
/// zero if none is.
pub open spec fn last_not_char_below(s: Seq<char>, c: char, upto: int) -> int
    recommends
        0 <= upto <= s.len(),
    decreases upto when 0 <= upto
{
    if upto <= 0 {
        0
    } else if s[upto - 1] == c {
        last_not_char_below(s, c, upto - 1)
    } else {
        upto
    }
}

/// The string with every leading and trailing occurrence of `c` removed, as
/// `str::trim_matches` does.
pub open spec fn trim_char(s: Seq<char>, c: char) -> Seq<char> {
    let lo = first_not_char_at(s, c, 0);
    let hi = last_not_char_below(s, c, s.len() as int);
    if lo <= hi {
        s.subrange(lo, hi)
    } else {
        Seq::empty()
    }
}

proof fn lemma_first_not_char_bounds(s: Seq<char>, c: char, from: int)
    requires
        0 <= from <= s.len(),
    ensures
        from <= first_not_char_at(s, c, from) <= s.len(),
        first_not_char_at(s, c, from) < s.len() ==> s[first_not_char_at(s, c, from)] != c,
        forall|k: int| from <= k < first_not_char_at(s, c, from) ==> s[k] == c,
    decreases s.len() - from,
{
    if from < s.len() && s[from] == c {
        lemma_first_not_char_bounds(s, c, from + 1);
    }
}

proof fn lemma_last_not_char_bounds(s: Seq<char>, c: char, upto: int)
    requires
        0 <= upto <= s.len(),
    ensures
        0 <= last_not_char_below(s, c, upto) <= upto,
        last_not_char_below(s, c, upto) > 0 ==> s[last_not_char_below(s, c, upto) - 1] != c,
        forall|k: int| last_not_char_below(s, c, upto) <= k < upto ==> s[k] == c,
    decreases upto,
{
    if upto > 0 && s[upto - 1] == c {
        lemma_last_not_char_bounds(s, c, upto - 1);
    }
}

proof fn lemma_last_not_char_all(s: Seq<char>, c: char, upto: int)
    requires
        0 <= upto <= s.len(),
        forall|k: int| 0 <= k < upto ==> s[k] == c,
    ensures
        last_not_char_below(s, c, upto) == 0,
    decreases upto,
{
    if upto > 0 {
        lemma_last_not_char_all(s, c, upto - 1);
    }
}

/// Executable trim matching [`trim_char`].
pub fn trim_char_vec(v: &Vec<char>, c: char) -> (r: Vec<char>)
    ensures
        r@ == trim_char(v@, c),
{
    let n = v.len();
    let mut lo: usize = 0;
    while lo < n && v[lo] == c
        invariant
            lo <= n,
            n == v@.len(),
            first_not_char_at(v@, c, 0) == first_not_char_at(v@, c, lo as int),
        decreases n - lo,
    {
        lo = lo + 1;
    }
    let mut hi: usize = n;
    while hi > lo && v[hi - 1] == c
        invariant
            lo <= hi <= n,
            n == v@.len(),
            last_not_char_below(v@, c, n as int) == last_not_char_below(v@, c, hi as int),
            first_not_char_at(v@, c, 0) == lo,
        decreases hi,
    {
        hi = hi - 1;
    }
    proof {
        lemma_first_not_char_bounds(v@, c, 0);
        lemma_first_not_char_bounds(v@, c, lo as int);
        lemma_last_not_char_bounds(v@, c, v@.len() as int);
        lemma_last_not_char_bounds(v@, c, hi as int);
        assert(first_not_char_at(v@, c, lo as int) == lo);
        if hi == lo && lo > 0 {
            lemma_last_not_char_all(v@, c, lo as int);
        }
    }
    if lo <= hi {
        let r = subvec(v, lo, hi);
        proof {
            assert(r@ =~= trim_char(v@, c));
        }
        r
    } else {
        let r: Vec<char> = Vec::new();
        proof {
            assert(r@ =~= trim_char(v@, c));
        }
        r
    }
}



/// A string that trimming leaves unchanged: empty, or bounded by non-space
/// characters.
pub open spec fn trimmed(s: Seq<char>) -> bool {
    s.len() == 0 || (!is_space(s[0]) && !is_space(s.last()))
}

/// Trimming leaves a [`trimmed`] string unchanged.
pub proof fn lemma_trim_id(s: Seq<char>)
    requires
        trimmed(s),
    ensures
        trim(s) == s,
{
    if s.len() == 0 {
        assert(trim(s) =~= s);
    } else {
        assert(first_non_space_at(s, 0) == 0);
        assert(last_non_space_below(s, s.len() as int) == s.len());
        assert(trim(s) =~= s);
    }
}

/// Splitting at a separator the left part does not hold finds exactly the
/// two parts.
pub proof fn lemma_split_at_sep(s: Seq<char>, left: Seq<char>, right: Seq<char>, c: char)
    requires
        s == left + seq![c] + right,
        forall|k: int| 0 <= k < left.len() ==> left[k] != c,
    ensures
        split_first(s, c) == Some((left, right)),
{
    lemma_find_at(s, c, 0);
    let f = find_at(s, c, 0);
    let i = left.len() as int;
    assert(s.len() == left.len() + 1 + right.len());
    assert(s[i] == c);
    assert(forall|k: int| 0 <= k < i ==> s[k] == left[k]);
    if f < i {
        assert(s[f] == c);
        assert(s[f] == left[f]);
        assert(false);
    }
    if f > i {
        assert(s[i] != c);
        assert(false);
    }
    assert(f == i);
    assert(s.subrange(0, i) =~= left);
    assert(s.subrange(i + 1, s.len() as int) =~= right);
}

/// A string without the separator splits into itself alone.
pub proof fn lemma_split_all_nosep(s: Seq<char>, c: char)
    requires
        forall|k: int| 0 <= k < s.len() ==> s[k] != c,
    ensures
        split_all(s, c) == seq![s],
{
    lemma_find_at(s, c, 0);
    let f = find_at(s, c, 0);
    if f < s.len() {
        assert(s[f] == c);
        assert(false);
    }
    assert(split_first(s, c) is None);
}

/// A string holding the separator once, between parts that do not hold it,
/// splits into exactly those two parts.
pub proof fn lemma_split_all_two(s: Seq<char>, left: Seq<char>, right: Seq<char>, c: char)
    requires
        s == left + seq![c] + right,
        forall|k: int| 0 <= k < left.len() ==> left[k] != c,
        forall|k: int| 0 <= k < right.len() ==> right[k] != c,
    ensures
        split_all(s, c) == seq![left, right],
{
    lemma_split_at_sep(s, left, right, c);
    lemma_split_all_nosep(right, c);
    assert(split_all(s, c) =~= seq![left, right]);
}

/// A single word without whitespace is its own whitespace splitting.
pub proof fn lemma_split_ws_single(s: Seq<char>)
    requires
        s.len() > 0,
        forall|k: int| 0 <= k < s.len() ==> !is_space(#[trigger] s[k]),
    ensures
        split_ws(s) == seq![s],
{
    assert(first_non_space_at(s, 0) == 0);
    lemma_first_space_at(s, 0);
    let j = first_space_at(s, 0);
    if j < s.len() {
        assert(is_space(s[j]));
        assert(false);
    }
    assert(s.subrange(0, j) =~= s);
    assert(s.subrange(j, s.len() as int) =~= Seq::<char>::empty());
    assert(split_ws(Seq::<char>::empty()) =~= Seq::<Seq<char>>::empty());
    assert(split_ws(s) =~= seq![s]);
}

} // verus!
