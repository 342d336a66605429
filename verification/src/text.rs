//! Character-level text helpers shared by the device-id and `/proc` parsers.
//!
//! Texts are handled as sequences of `char`; positions are char positions.

use vstd::prelude::*;
use vstd::string::*;

verus! {

/// Whether `p` is a prefix of `s`.
pub open spec fn has_prefix(s: Seq<char>, p: Seq<char>) -> bool {
    p.len() <= s.len() && s.subrange(0, p.len() as int) == p
}

/// The first position at or after `i` where `p` occurs in `s`.
pub open spec fn find_from(s: Seq<char>, p: Seq<char>, i: int) -> Option<int>
    decreases s.len() + 1 - i,
{
    if i < 0 || i + p.len() > s.len() {
        None
    } else if s.subrange(i, i + p.len()) == p {
        Some(i)
    } else {
        find_from(s, p, i + 1)
    }
}

/// Whether `p` occurs anywhere in `s`.
pub open spec fn contains_text(s: Seq<char>, p: Seq<char>) -> bool {
    find_from(s, p, 0) is Some
}

/// The first position at or after `i` that holds `c`.
pub open spec fn find_char_from(s: Seq<char>, c: char, i: int) -> Option<int>
    decreases s.len() - i,
{
    if i < 0 || i >= s.len() {
        None
    } else if s[i] == c {
        Some(i)
    } else {
        find_char_from(s, c, i + 1)
    }
}

/// `s` up to the first `c` (all of `s` when there is none).
pub open spec fn before_char(s: Seq<char>, c: char) -> Seq<char> {
    match find_char_from(s, c, 0) {
        Some(k) => s.subrange(0, k),
        None => s,
    }
}

/// Unicode `White_Space`, the set that `char::is_whitespace` and `str::trim` use.
pub open spec fn is_space(c: char) -> bool {
    ||| ('\u{9}' <= c && c <= '\u{d}')
    ||| c == ' '
    ||| c == '\u{85}'
    ||| c == '\u{a0}'
    ||| c == '\u{1680}'
    ||| ('\u{2000}' <= c && c <= '\u{200a}')
    ||| c == '\u{2028}'
    ||| c == '\u{2029}'
    ||| c == '\u{202f}'
    ||| c == '\u{205f}'
    ||| c == '\u{3000}'
}

/// `s` without leading white space.
pub open spec fn trim_start(s: Seq<char>) -> Seq<char>
    decreases s.len(),
{
    if s.len() > 0 && is_space(s[0]) {
        trim_start(s.drop_first())
    } else {
        s
    }
}

/// `s` without trailing white space.
pub open spec fn trim_end(s: Seq<char>) -> Seq<char>
    decreases s.len(),
{
    if s.len() > 0 && is_space(s.last()) {
        trim_end(s.drop_last())
    } else {
        s
    }
}

/// `s` without leading or trailing white space (`str::trim`).
pub open spec fn trim(s: Seq<char>) -> Seq<char> {
    trim_end(trim_start(s))
}

/// `s` without any number of leading copies of `c`.
pub open spec fn trim_start_char(s: Seq<char>, c: char) -> Seq<char>
    decreases s.len(),
{
    if s.len() > 0 && s[0] == c {
        trim_start_char(s.drop_first(), c)
    } else {
        s
    }
}

/// Whether `c` is an ASCII digit.
pub open spec fn is_digit(c: char) -> bool {
    '0' <= c && c <= '9'
}

/// Whether `s` is non-empty and all ASCII digits.
pub open spec fn all_digits(s: Seq<char>) -> bool {
    s.len() > 0 && forall|i: int| 0 <= i < s.len() ==> is_digit(#[trigger] s[i])
}

/// The number that the ASCII digits `s` spell, in base ten.
pub open spec fn digits_value(s: Seq<char>) -> nat
    decreases s.len(),
{
    if s.len() == 0 {
        0
    } else {
        digits_value(s.drop_last()) * 10 + ((s.last() as nat) - ('0' as nat)) as nat
    }
}

/// `str::parse::<u32>`: an optional `+`, then at least one ASCII digit,
/// with a value that fits in 32 bits.
pub open spec fn parse_u32(s: Seq<char>) -> Option<u32> {
    let d = if s.len() > 0 && s[0] == '+' { s.drop_first() } else { s };
    if all_digits(d) && digits_value(d) <= u32::MAX {
        Some(digits_value(d) as u32)
    } else {
        None
    }
}

/// The `i32` that `s` spells as `str::parse::<i32>` reads it: an optional
/// sign (`+` or `-`) and ASCII digits, in range.
pub open spec fn parse_i32(s: Seq<char>) -> Option<i32> {
    if s.len() > 0 && s[0] == '-' {
        let d = s.drop_first();
        if all_digits(d) && digits_value(d) <= 0x8000_0000 {
            Some((0 - digits_value(d)) as i32)
        } else {
            None
        }
    } else {
        match parse_u32(s) {
            Some(v) => if v <= i32::MAX { Some(v as i32) } else { None },
            None => None,
        }
    }
}

/// The characters of `s`.
pub fn to_chars(s: &str) -> (r: Vec<char>)
    ensures
        r@ == s@,
{
    let n = s.unicode_len();
    let mut out: Vec<char> = Vec::new();
    let mut i: usize = 0;
    while i < n
        invariant
            n == s@.len(),
            0 <= i <= n,
            out@ == s@.subrange(0, i as int),
        decreases n - i,
    {
        out.push(s.get_char(i));
        i += 1;
        assert(out@ =~= s@.subrange(0, i as int));
    }
    assert(s@.subrange(0, n as int) =~= s@);
    out
}

/// Whether the text `v[start..end]` begins with `p`.
pub fn has_prefix_at(v: &Vec<char>, start: usize, end: usize, p: &str) -> (r: bool)
    requires
        start <= end <= v@.len(),
    ensures
        r == has_prefix(v@.subrange(start as int, end as int), p@),
{
    let n = p.unicode_len();
    if n > end - start {
        return false;
    }
    let mut i: usize = 0;
    while i < n
        invariant
            n == p@.len(),
            start <= end <= v@.len(),
            n <= end - start,
            0 <= i <= n,
            forall|k: int| 0 <= k < i ==> v@[start + k] == p@[k],
        decreases n - i,
    {
        if v[start + i] != p.get_char(i) {
            assert(v@.subrange(start as int, end as int).subrange(0, n as int)[i as int] != p@[i as int]);
            return false;
        }
        i += 1;
    }
    assert(v@.subrange(start as int, end as int).subrange(0, n as int) =~= p@);
    true
}

/// Whether `a` and `b` are the same text.
pub fn str_eq(a: &str, b: &str) -> (r: bool)
    ensures
        r == (a@ == b@),
{
    let n = a.unicode_len();
    if n != b.unicode_len() {
        return false;
    }
    let mut i: usize = 0;
    while i < n
        invariant
            n == a@.len(),
            n == b@.len(),
            0 <= i <= n,
            forall|k: int| 0 <= k < i ==> a@[k] == b@[k],
        decreases n - i,
    {
        if a.get_char(i) != b.get_char(i) {
            return false;
        }
        i += 1;
    }
    assert(a@ =~= b@);
    true
}

/// The first position in `start..end` where `p` occurs in `v` (whole
/// occurrence before `end`).
pub fn find_text(v: &Vec<char>, start: usize, end: usize, p: &str) -> (r: Option<usize>)
    requires
        start <= end <= v@.len(),
        p@.len() > 0,
    ensures
        r matches Some(k) ==> find_from(v@.subrange(0, end as int), p@, start as int) == Some(k as int),
        r is None ==> find_from(v@.subrange(0, end as int), p@, start as int) is None,
{
    let ghost s = v@.subrange(0, end as int);
    let n = p.unicode_len();
    let mut i: usize = start;
    while i <= end && n <= end - i
        invariant
            n == p@.len(),
            n > 0,
            start <= i,
            end <= v@.len(),
            s == v@.subrange(0, end as int),
            find_from(s, p@, start as int) == find_from(s, p@, i as int),
        decreases end - i,
    {
        let hit = has_prefix_at(v, i, end, p);
        if hit {
            assert(s.subrange(i as int, i + n) =~= v@.subrange(i as int, end as int).subrange(0, n as int));
            return Some(i);
        }
        assert(s.subrange(i as int, i + n) =~= v@.subrange(i as int, end as int).subrange(0, n as int));
        i += 1;
    }
    None
}

/// Searching a whole text from `i` finds the same place as searching the
/// text from `i` on, shifted.
pub proof fn lemma_find_char_shift(s: Seq<char>, c: char, i: int)
    requires
        0 <= i <= s.len(),
    ensures
        match find_char_from(s, c, i) {
            Some(k) => find_char_from(s.subrange(i, s.len() as int), c, 0) == Some(k - i),
            None => find_char_from(s.subrange(i, s.len() as int), c, 0) is None,
        },
    decreases s.len() - i,
{
    let t = s.subrange(i, s.len() as int);
    if i < s.len() {
        lemma_find_char_shift(s, c, i + 1);
        lemma_find_char_offset(t, c, 1);
        assert(s.subrange(i + 1, s.len() as int) =~= t.subrange(1, t.len() as int));
    }
}

/// Searching `t` from `j` equals searching `t[j..]` from 0, shifted by `j`.
pub proof fn lemma_find_char_offset(t: Seq<char>, c: char, j: int)
    requires
        0 <= j <= t.len(),
    ensures
        match find_char_from(t, c, j) {
            Some(k) => find_char_from(t.subrange(j, t.len() as int), c, 0) == Some(k - j),
            None => find_char_from(t.subrange(j, t.len() as int), c, 0) is None,
        },
    decreases t.len() - j,
{
    lemma_find_char_general(t, c, j, 0);
}

/// Searching `t[j..]` from `m` equals searching `t` from `j + m`, shifted.
pub proof fn lemma_find_char_general(t: Seq<char>, c: char, j: int, m: int)
    requires
        0 <= j <= t.len(),
        0 <= m,
    ensures
        match find_char_from(t, c, j + m) {
            Some(k) => find_char_from(t.subrange(j, t.len() as int), c, m) == Some(k - j),
            None => find_char_from(t.subrange(j, t.len() as int), c, m) is None,
        },
    decreases t.len() - j - m,
{
    if j + m < t.len() {
        lemma_find_char_general(t, c, j, m + 1);
    }
}

/// What the first occurrence found from `i` satisfies.
pub proof fn lemma_find_char_from_bounds(s: Seq<char>, c: char, i: int)
    ensures
        find_char_from(s, c, i) matches Some(k) ==> (i <= k < s.len() && s[k] == c
            && forall|j: int| i <= j < k ==> s[j] != c),
        find_char_from(s, c, i) is None ==> forall|j: int| 0 <= i <= j < s.len() ==> s[j] != c,
    decreases s.len() - i,
{
    if 0 <= i < s.len() && s[i] != c {
        lemma_find_char_from_bounds(s, c, i + 1);
    }
}

/// Searching `t[j..]` from `m` for a text equals searching `t` from `j + m`,
/// shifted by `j`.
pub proof fn lemma_find_from_general(t: Seq<char>, p: Seq<char>, j: int, m: int)
    requires
        0 <= j <= t.len(),
        0 <= m,
    ensures
        match find_from(t, p, j + m) {
            Some(k) => find_from(t.subrange(j, t.len() as int), p, m) == Some(k - j),
            None => find_from(t.subrange(j, t.len() as int), p, m) is None,
        },
    decreases t.len() + 1 - j - m,
{
    let u = t.subrange(j, t.len() as int);
    if j + m + p.len() <= t.len() {
        assert(u.subrange(m, m + p.len()) =~= t.subrange(j + m, j + m + p.len()));
        lemma_find_from_general(t, p, j, m + 1);
    }
}

/// Whether the text `v[start..end]` is exactly `p`.
pub fn text_eq_at(v: &Vec<char>, start: usize, end: usize, p: &str) -> (r: bool)
    requires
        start <= end <= v@.len(),
    ensures
        r == (v@.subrange(start as int, end as int) == p@),
{
    let n = p.unicode_len();
    if n != end - start {
        return false;
    }
    let hit = has_prefix_at(v, start, end, p);
    assert(v@.subrange(start as int, end as int).subrange(0, n as int) =~= v@.subrange(start as int, end as int));
    hit
}

/// Whether `p` occurs within `v[start..end]`.
pub fn contains_at(v: &Vec<char>, start: usize, end: usize, p: &str) -> (r: bool)
    requires
        start <= end <= v@.len(),
        p@.len() > 0,
    ensures
        r == contains_text(v@.subrange(start as int, end as int), p@),
{
    let found = find_text(v, start, end, p);
    proof {
        lemma_find_from_general(v@.subrange(0, end as int), p@, start as int, 0);
        assert(v@.subrange(0, end as int).subrange(start as int, end as int) =~= v@.subrange(start as int, end as int));
    }
    found.is_some()
}

/// `s` without any number of leading copies of `p`.
pub open spec fn strip_all_prefix(s: Seq<char>, p: Seq<char>) -> Seq<char>
    decreases s.len(),
{
    if p.len() > 0 && has_prefix(s, p) {
        strip_all_prefix(s.subrange(p.len() as int, s.len() as int), p)
    } else {
        s
    }
}

/// The start of `v[start..end]` after removing every leading copy of `p`.
pub fn strip_all_prefix_at(v: &Vec<char>, start: usize, end: usize, p: &str) -> (r: usize)
    requires
        start <= end <= v@.len(),
        p@.len() > 0,
    ensures
        start <= r <= end,
        v@.subrange(r as int, end as int) == strip_all_prefix(v@.subrange(start as int, end as int), p@),
{
    let n = p.unicode_len();
    let mut i: usize = start;
    while has_prefix_at(v, i, end, p)
        invariant
            n == p@.len(),
            n > 0,
            start <= i <= end,
            end <= v@.len(),
            strip_all_prefix(v@.subrange(start as int, end as int), p@)
                == strip_all_prefix(v@.subrange(i as int, end as int), p@),
        decreases end - i,
    {
        assert(v@.subrange(i as int, end as int).subrange(n as int, (end - i) as int)
            =~= v@.subrange(i + n, end as int));
        i = i + n;
    }
    i
}

/// The last position in `s` that holds `c`.
pub open spec fn rfind_char(s: Seq<char>, c: char) -> Option<int>
    decreases s.len(),
{
    if s.len() == 0 {
        None
    } else if s.last() == c {
        Some(s.len() - 1)
    } else {
        rfind_char(s.drop_last(), c)
    }
}

/// `s` without any number of trailing copies of `c`.
pub open spec fn trim_end_char(s: Seq<char>, c: char) -> Seq<char>
    decreases s.len(),
{
    if s.len() > 0 && s.last() == c {
        trim_end_char(s.drop_last(), c)
    } else {
        s
    }
}

/// `s` without leading or trailing copies of `c` (`str::trim_matches`).
pub open spec fn trim_char(s: Seq<char>, c: char) -> Seq<char> {
    trim_end_char(trim_start_char(s, c), c)
}

/// The last position in `v[start..end]` that holds `c`.
pub fn rfind_char_at(v: &Vec<char>, start: usize, end: usize, c: char) -> (r: Option<usize>)
    requires
        start <= end <= v@.len(),
    ensures
        match r {
            Some(k) => start <= k < end && rfind_char(v@.subrange(start as int, end as int), c) == Some(k - start),
            None => rfind_char(v@.subrange(start as int, end as int), c) is None,
        },
{
    let mut j: usize = end;
    while j > start
        invariant
            start <= j <= end,
            end <= v@.len(),
            rfind_char(v@.subrange(start as int, end as int), c) == rfind_char(v@.subrange(start as int, j as int), c),
        decreases j - start,
    {
        assert(v@.subrange(start as int, j as int).drop_last() =~= v@.subrange(start as int, j - 1));
        if v[j - 1] == c {
            return Some(j - 1);
        }
        j -= 1;
    }
    None
}

/// The bounds of `v[start..end]` with every leading and trailing `c` removed.
pub fn trim_char_bounds(v: &Vec<char>, start: usize, end: usize, c: char) -> (r: (usize, usize))
    requires
        start <= end <= v@.len(),
    ensures
        start <= r.0 <= r.1 <= end,
        v@.subrange(r.0 as int, r.1 as int) == trim_char(v@.subrange(start as int, end as int), c),
{
    let mut i: usize = start;
    while i < end && v[i] == c
        invariant
            start <= i <= end,
            end <= v@.len(),
            trim_start_char(v@.subrange(start as int, end as int), c) == trim_start_char(v@.subrange(i as int, end as int), c),
        decreases end - i,
    {
        assert(v@.subrange(i as int, end as int).drop_first() =~= v@.subrange(i + 1, end as int));
        i += 1;
    }
    proof {
        if i < end {
            assert(v@.subrange(i as int, end as int)[0] == v@[i as int]);
        }
    }
    let mut j: usize = end;
    while j > i && v[j - 1] == c
        invariant
            start <= i <= j <= end,
            end <= v@.len(),
            trim_start_char(v@.subrange(start as int, end as int), c) == v@.subrange(i as int, end as int),
            trim_char(v@.subrange(start as int, end as int), c) == trim_end_char(v@.subrange(i as int, j as int), c),
        decreases j - i,
    {
        assert(v@.subrange(i as int, j as int).drop_last() =~= v@.subrange(i as int, j - 1));
        j -= 1;
    }
    proof {
        if j > i {
            assert(v@.subrange(i as int, j as int).last() == v@[j - 1]);
        }
    }
    (i, j)
}

/// `s` with every occurrence of `from` (found left to right, without
/// overlap) replaced by `to` (`str::replace`).
pub open spec fn replace_all(s: Seq<char>, from: Seq<char>, to: Seq<char>) -> Seq<char>
    decreases s.len(),
{
    if from.len() == 0 {
        s
    } else {
        match find_from(s, from, 0) {
            Some(k) => if k + from.len() <= s.len() && k >= 0 {
                s.subrange(0, k) + to + replace_all(s.subrange(k + from.len(), s.len() as int), from, to)
            } else {
                s
            },
            None => s,
        }
    }
}

/// `s[start..]` with every occurrence of `from` replaced by `to`.
pub fn replace_all_from(s: &str, v: &Vec<char>, start: usize, from: &str, to: &str) -> (r: String)
    requires
        v@ == s@,
        start <= v@.len(),
        from@.len() > 0,
    ensures
        r@ == replace_all(v@.subrange(start as int, v@.len() as int), from@, to@),
    decreases v@.len() - start,
{
    let n = v.len();
    let found = find_text(v, start, n, from);
    proof {
        assert(v@.subrange(0, n as int) =~= v@);
        lemma_find_from_general(v@, from@, start as int, 0);
    }
    match found {
        Some(k) => {
            proof {
                lemma_find_from_bounds(v@, from@, start as int);
            }
            let m = from.unicode_len();
            let mut out = substring(s, start, k);
            out.append(to);
            let rest = replace_all_from(s, v, k + m, from, to);
            out.append(rest.as_str());
            let ghost t = v@.subrange(start as int, n as int);
            assert(t.subrange(0, k - start) =~= v@.subrange(start as int, k as int));
            assert(t.subrange(k - start + m, t.len() as int) =~= v@.subrange(k + m, n as int));
            out
        },
        None => substring(s, start, n),
    }
}

/// What the first occurrence of a text found from `i` satisfies.
pub proof fn lemma_find_from_bounds(s: Seq<char>, p: Seq<char>, i: int)
    ensures
        find_from(s, p, i) matches Some(k) ==> (0 <= i <= k && k + p.len() <= s.len()
            && s.subrange(k, k + p.len()) == p),
    decreases s.len() + 1 - i,
{
    if 0 <= i && i + p.len() <= s.len() && s.subrange(i, i + p.len()) != p {
        lemma_find_from_bounds(s, p, i + 1);
    }
}

/// The first position in `start..end` that holds `c`.
pub fn find_char(v: &Vec<char>, start: usize, end: usize, c: char) -> (r: Option<usize>)
    requires
        start <= end <= v@.len(),
    ensures
        r matches Some(k) ==> find_char_from(v@.subrange(0, end as int), c, start as int) == Some(k as int),
        r is None ==> find_char_from(v@.subrange(0, end as int), c, start as int) is None,
        r matches Some(k) ==> start <= k < end && v@[k as int] == c,
{
    proof {
        lemma_find_char_from_bounds(v@.subrange(0, end as int), c, start as int);
    }
    let ghost s = v@.subrange(0, end as int);
    let mut i: usize = start;
    while i < end
        invariant
            start <= i <= end,
            end <= v@.len(),
            s == v@.subrange(0, end as int),
            find_char_from(s, c, start as int) == find_char_from(s, c, i as int),
        decreases end - i,
    {
        if v[i] == c {
            return Some(i);
        }
        i += 1;
    }
    None
}

/// Whether `c` is white space (Unicode `White_Space`).
pub fn char_is_space(c: char) -> (r: bool)
    ensures
        r == is_space(c),
{
    ('\u{9}' <= c && c <= '\u{d}') || c == ' ' || c == '\u{85}' || c == '\u{a0}' || c == '\u{1680}'
        || ('\u{2000}' <= c && c <= '\u{200a}') || c == '\u{2028}' || c == '\u{2029}'
        || c == '\u{202f}' || c == '\u{205f}' || c == '\u{3000}'
}

proof fn lemma_trim_start_step(s: Seq<char>, i: int)
    requires
        0 <= i < s.len(),
        is_space(s[i]),
    ensures
        trim_start(s.subrange(i, s.len() as int)) == trim_start(s.subrange(i + 1, s.len() as int)),
{
    assert(s.subrange(i, s.len() as int).drop_first() =~= s.subrange(i + 1, s.len() as int));
}

proof fn lemma_trim_end_step(s: Seq<char>, j: int)
    requires
        0 < j <= s.len(),
        is_space(s[j - 1]),
    ensures
        trim_end(s.subrange(0, j)) == trim_end(s.subrange(0, j - 1)),
{
    assert(s.subrange(0, j).drop_last() =~= s.subrange(0, j - 1));
}

/// The bounds of `v[start..end]` with white space trimmed from both ends.
pub fn trim_bounds(v: &Vec<char>, start: usize, end: usize) -> (r: (usize, usize))
    requires
        start <= end <= v@.len(),
    ensures
        start <= r.0 <= r.1 <= end,
        v@.subrange(r.0 as int, r.1 as int) == trim(v@.subrange(start as int, end as int)),
{
    let ghost s = v@.subrange(start as int, end as int);
    let mut i: usize = start;
    while i < end && char_is_space(v[i])
        invariant
            start <= i <= end,
            end <= v@.len(),
            s == v@.subrange(start as int, end as int),
            trim_start(s) == trim_start(v@.subrange(i as int, end as int)),
        decreases end - i,
    {
        proof {
            let t = v@.subrange(0, end as int);
            assert(t.subrange(i as int, end as int) =~= v@.subrange(i as int, end as int));
            assert(t.subrange(i + 1, end as int) =~= v@.subrange(i + 1, end as int));
            lemma_trim_start_step(t, i as int);
        }
        i += 1;
    }
    proof {
        let u = v@.subrange(i as int, end as int);
        if u.len() > 0 {
            assert(u[0] == v@[i as int]);
        }
    }
    let mut j: usize = end;
    while j > i && char_is_space(v[j - 1])
        invariant
            start <= i <= j <= end,
            end <= v@.len(),
            s == v@.subrange(start as int, end as int),
            trim_start(s) == v@.subrange(i as int, end as int),
            trim(s) == trim_end(v@.subrange(i as int, j as int)),
        decreases j - i,
    {
        proof {
            let t = v@.subrange(i as int, end as int);
            assert(t.subrange(0, j - i) =~= v@.subrange(i as int, j as int));
            assert(t.subrange(0, j - i - 1) =~= v@.subrange(i as int, j - 1));
            lemma_trim_end_step(t, j - i);
        }
        j -= 1;
    }
    proof {
        let w = v@.subrange(i as int, j as int);
        if w.len() > 0 {
            assert(w.last() == v@[j - 1]);
        }
    }
    (i, j)
}

/// Whether `v[start..end]` is non-empty and all ASCII digits.
pub fn all_digits_in(v: &Vec<char>, start: usize, end: usize) -> (r: bool)
    requires
        start <= end <= v@.len(),
    ensures
        r == all_digits(v@.subrange(start as int, end as int)),
{
    if start == end {
        return false;
    }
    let ghost s = v@.subrange(start as int, end as int);
    let mut i: usize = start;
    while i < end
        invariant
            start <= i <= end,
            end <= v@.len(),
            s == v@.subrange(start as int, end as int),
            forall|k: int| 0 <= k < i - start ==> is_digit(#[trigger] s[k]),
        decreases end - i,
    {
        if !('0' <= v[i] && v[i] <= '9') {
            assert(!is_digit(s[i - start]));
            return false;
        }
        i += 1;
    }
    true
}

proof fn lemma_digits_value_push(s: Seq<char>, c: char)
    ensures
        digits_value(s.push(c)) == digits_value(s) * 10 + ((c as nat) - ('0' as nat)) as nat,
{
    assert(s.push(c).drop_last() =~= s);
}

/// `str::parse::<u32>` on `v[start..end]`.
pub fn parse_u32_in(v: &Vec<char>, start: usize, end: usize) -> (r: Option<u32>)
    requires
        start <= end <= v@.len(),
    ensures
        r == parse_u32(v@.subrange(start as int, end as int)),
{
    let ghost s = v@.subrange(start as int, end as int);
    let mut first = start;
    if start < end && v[start] == '+' {
        first = start + 1;
        assert(s.drop_first() =~= v@.subrange(first as int, end as int));
    }
    let ghost d = v@.subrange(first as int, end as int);
    if !all_digits_in(v, first, end) {
        return None;
    }
    assert(parse_u32(s) == (if digits_value(d) <= u32::MAX { Some(digits_value(d) as u32) } else { None::<u32> }));
    let mut acc: u64 = 0;
    let mut i: usize = first;
    while i < end
        invariant
            parse_u32(v@.subrange(start as int, end as int)) == (if digits_value(d) <= u32::MAX {
                Some(digits_value(d) as u32)
            } else {
                None::<u32>
            }),
            first <= i <= end,
            end <= v@.len(),
            d == v@.subrange(first as int, end as int),
            all_digits(d),
            acc == digits_value(v@.subrange(first as int, i as int)),
            acc <= u32::MAX,
        decreases end - i,
    {
        let c = v[i];
        assert(is_digit(d[i - first]));
        let digit = (c as u32 - '0' as u32) as u64;
        proof {
            assert(v@.subrange(first as int, i + 1) =~= v@.subrange(first as int, i as int).push(c));
            lemma_digits_value_push(v@.subrange(first as int, i as int), c);
        }
        let next = acc * 10 + digit;
        if next > 0xffff_ffff {
            proof {
                assert(v@.subrange(first as int, i + 1) =~= d.subrange(0, i + 1 - first));
                lemma_digits_value_prefix_bound(d, i + 1 - first);
            }
            return None;
        }
        acc = next;
        i += 1;
    }
    assert(v@.subrange(first as int, end as int) =~= d);
    Some(acc as u32)
}

proof fn lemma_digits_value_prefix_bound(d: Seq<char>, k: int)
    requires
        all_digits(d),
        0 <= k <= d.len(),
    ensures
        digits_value(d.subrange(0, k)) <= digits_value(d),
    decreases d.len() - k,
{
    if k < d.len() {
        lemma_digits_value_prefix_bound(d, k + 1);
        assert(d.subrange(0, k + 1).drop_last() =~= d.subrange(0, k));
        assert(is_digit(d[k]));
    } else {
        assert(d.subrange(0, k) =~= d);
    }
}

/// The text `s[start..end]` as a new `String`.
pub fn substring(s: &str, start: usize, end: usize) -> (r: String)
    requires
        start <= end <= s@.len(),
    ensures
        r@ == s@.subrange(start as int, end as int),
{
    String::from_str(s.substring_char(start, end))
}

/// The ASCII digit for `d < 10`.
pub open spec fn digit_char(d: nat) -> char {
    ((d + ('0' as nat)) as int) as char
}

/// The base-ten spelling of `n`, without leading zeros.
pub open spec fn decimal(n: nat) -> Seq<char>
    decreases n,
{
    if n < 10 {
        seq![digit_char(n)]
    } else {
        decimal(n / 10).push(digit_char(n % 10))
    }
}

/// The base-ten spelling of a signed `n`, with `-` before negative numbers.
pub open spec fn signed_decimal(n: int) -> Seq<char> {
    if n < 0 {
        seq!['-'] + decimal((-n) as nat)
    } else {
        decimal(n as nat)
    }
}

fn digit_str(d: u32) -> (r: &'static str)
    requires
        d < 10,
    ensures
        r@ == seq![digit_char(d as nat)],
{
    proof {
        reveal_strlit("0");
        reveal_strlit("1");
        reveal_strlit("2");
        reveal_strlit("3");
        reveal_strlit("4");
        reveal_strlit("5");
        reveal_strlit("6");
        reveal_strlit("7");
        reveal_strlit("8");
        reveal_strlit("9");
    }
    let r = match d {
        0 => "0",
        1 => "1",
        2 => "2",
        3 => "3",
        4 => "4",
        5 => "5",
        6 => "6",
        7 => "7",
        8 => "8",
        _ => "9",
    };
    assert(r@ =~= seq![digit_char(d as nat)]);
    r
}

/// Append the base-ten spelling of `n` to `s`.
pub fn push_decimal(s: &mut String, n: u32)
    ensures
        final(s)@ == old(s)@ + decimal(n as nat),
    decreases n,
{
    if n >= 10 {
        push_decimal(s, n / 10);
    }
    s.append(digit_str(n % 10));
    assert(decimal(n as nat) =~= if n < 10 { seq![digit_char(n as nat)] } else {
        decimal((n / 10) as nat).push(digit_char((n % 10) as nat))
    });
}

/// Append the base-ten spelling of the signed `n` to `s`.
pub fn push_signed_decimal(s: &mut String, n: i32)
    ensures
        final(s)@ == old(s)@ + signed_decimal(n as int),
{
    if n < 0 {
        proof {
            reveal_strlit("-");
        }
        s.append("-");
        let magnitude: u32 = if n == i32::MIN { 2147483648u32 } else { (-n) as u32 };
        push_decimal(s, magnitude);
        assert(s@ =~= old(s)@ + signed_decimal(n as int)) by {
            assert("-"@ =~= seq!['-']);
        }
    } else {
        push_decimal(s, n as u32);
    }
}


/// Read `v[start..end]` as `str::parse::<i32>` does.
pub fn parse_i32_in(v: &Vec<char>, start: usize, end: usize) -> (r: Option<i32>)
    requires
        start <= end <= v@.len(),
    ensures
        r == parse_i32(v@.subrange(start as int, end as int)),
{
    let ghost s = v@.subrange(start as int, end as int);
    if start < end && v[start] == '-' {
        let ghost d = s.drop_first();
        assert(d =~= v@.subrange(start + 1, end as int));
        if start + 1 < end && v[start + 1] == '+' {
            assert(!is_digit(d[0]));
            return None;
        }
        let m = parse_u32_in(v, start + 1, end);
        assert(d.len() > 0 ==> d[0] != '+');
        assert(parse_u32(d) == (if all_digits(d) && digits_value(d) <= u32::MAX {
            Some(digits_value(d) as u32)
        } else {
            None::<u32>
        }));
        match m {
            Some(x) => {
                if x <= 0x8000_0000u32 {
                    if x == 0x8000_0000u32 {
                        Some(i32::MIN)
                    } else {
                        let y = x as i32;
                        Some(0 - y)
                    }
                } else {
                    None
                }
            },
            None => None,
        }
    } else {
        match parse_u32_in(v, start, end) {
            Some(x) => if x <= 0x7fff_ffffu32 { Some(x as i32) } else { None },
            None => None,
        }
    }
}

} // verus!
