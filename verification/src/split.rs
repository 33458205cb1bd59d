//! Searching, splitting and joining text, and reading unsigned integers.
use vstd::prelude::*;
use crate::text::{all_digits, digit_value, digits_value, is_digit, push_str, string_from_chars, string_push, chars_of};

verus! {

/// The offset of the first `c` in `s`, or the length of `s` when there is none.
pub open spec fn index_of(s: Seq<char>, c: char) -> nat
    decreases s.len(),
{
    if s.len() == 0 {
        0
    } else if s[0] == c {
        0
    } else {
        1 + index_of(s.drop_first(), c)
    }
}

/// `s` holds the character `c`.
pub open spec fn has_char(s: Seq<char>, c: char) -> bool {
    exists|i: int| 0 <= i < s.len() && s[i] == c
}

/// The pieces of `s` between the occurrences of `c`, as `str::split` gives
/// them: one more piece than there are occurrences.
pub open spec fn split_on(s: Seq<char>, c: char) -> Seq<Seq<char>>
    decreases s.len(),
{
    let i = index_of(s, c) as int;
    if i >= s.len() {
        seq![s]
    } else {
        seq![s.take(i)] + split_on(s.skip(i + 1), c)
    }
}

/// `s` without the copies of `c` it starts with.
pub open spec fn trim_start(s: Seq<char>, c: char) -> Seq<char>
    decreases s.len(),
{
    if s.len() > 0 && s[0] == c {
        trim_start(s.drop_first(), c)
    } else {
        s
    }
}

/// The path `p` taken relative to the directory `base`, as `Path::join`
/// gives it: an absolute `p` stands alone, and otherwise a `/` separates the
/// two unless `base` is empty or already ends with one.
pub open spec fn join_path(base: Seq<char>, p: Seq<char>) -> Seq<char> {
    if p.len() > 0 && p[0] == '/' {
        p
    } else if base.len() == 0 || base.last() == '/' {
        base + p
    } else {
        base + seq!['/'] + p
    }
}

/// The `u32` that `str::parse` reads from `s`: an optional `+`, then one
/// or more decimal digits whose value fits.
pub open spec fn parse_u32_spec(s: Seq<char>) -> Option<u32> {
    let d = if s.len() > 0 && s[0] == '+' { s.drop_first() } else { s };
    if d.len() > 0 && all_digits(d) && digits_value(d) <= u32::MAX {
        Some(digits_value(d) as u32)
    } else {
        None
    }
}

/// The first `c` in `s` stands at offset `i - start` of `s.skip(start)`
/// when the characters from `start` up to `i` are not `c` and `i` ends the
/// search.
proof fn lemma_index_of_from(s: Seq<char>, c: char, start: int, i: int)
    requires
        0 <= start <= i <= s.len(),
        forall|k: int| start <= k < i ==> s[k] != c,
        i == s.len() || s[i] == c,
    ensures
        index_of(s.skip(start), c) == i - start,
    decreases i - start,
{
    if start < i {
        assert(s.skip(start).drop_first() =~= s.skip(start + 1));
        lemma_index_of_from(s, c, start + 1, i);
    }
}

/// The offset of the first `c` in `v` at or after `start`, or the length.
pub fn find_char_from(v: &[char], c: char, start: usize) -> (i: usize)
    requires
        start <= v@.len(),
    ensures
        start <= i <= v@.len(),
        i == start + index_of(v@.skip(start as int), c),
{
    let mut i = start;
    while i < v.len() && v[i] != c
        invariant
            start <= i <= v@.len(),
            forall|k: int| start <= k < i ==> v@[k] != c,
        decreases v@.len() - i,
    {
        i = i + 1;
    }
    proof {
        lemma_index_of_from(v@, c, start as int, i as int);
    }
    i
}

/// The characters `v[a..b]`.
pub fn chars_between(v: &[char], a: usize, b: usize) -> (r: Vec<char>)
    requires
        a <= b <= v@.len(),
    ensures
        r@ == v@.subrange(a as int, b as int),
{
    let mut r: Vec<char> = Vec::new();
    let mut i = a;
    while i < b
        invariant
            a <= i <= b <= v@.len(),
            r@ == v@.subrange(a as int, i as int),
        decreases b - i,
    {
        r.push(v[i]);
        i = i + 1;
        assert(r@ =~= v@.subrange(a as int, i as int));
    }
    r
}

/// The pieces of `v` between the occurrences of `c`.
pub fn split_chars(v: &[char], c: char) -> (parts: Vec<Vec<char>>)
    ensures
        parts@.map_values(|p: Vec<char>| p@) == split_on(v@, c),
{
    let mut parts: Vec<Vec<char>> = Vec::new();
    let mut start: usize = 0;
    assert(v@.skip(0) =~= v@);
    loop
        invariant
            start <= v@.len(),
            split_on(v@, c) == parts@.map_values(|p: Vec<char>| p@) + split_on(v@.skip(start as int), c),
        decreases v@.len() - start,
    {
        let ghost before = parts@.map_values(|p: Vec<char>| p@);
        let ghost rest = v@.skip(start as int);
        let i = find_char_from(v, c, start);
        let piece = chars_between(v, start, i);
        assert(piece@ =~= rest.take(i - start));
        parts.push(piece);
        assert(parts@.map_values(|p: Vec<char>| p@) =~= before.push(piece@));
        if i >= v.len() {
            assert(split_on(rest, c) == seq![rest]);
            assert(rest =~= piece@);
            assert(split_on(v@, c) =~= parts@.map_values(|p: Vec<char>| p@));
            return parts;
        }
        assert(rest.skip(i - start + 1) =~= v@.skip(i + 1));
        assert(split_on(rest, c) == seq![rest.take(i - start)] + split_on(v@.skip(i + 1), c));
        assert(before + (seq![piece@] + split_on(v@.skip(i + 1), c)) =~= before.push(piece@) + split_on(
            v@.skip(i + 1),
            c,
        ));
        start = i + 1;
    }
}

/// Whether `v` holds the character `c`.
pub fn has_char_exec(v: &[char], c: char) -> (b: bool)
    ensures
        b == has_char(v@, c),
{
    let mut i: usize = 0;
    while i < v.len()
        invariant
            i <= v@.len(),
            forall|k: int| 0 <= k < i ==> v@[k] != c,
        decreases v@.len() - i,
    {
        if v[i] == c {
            return true;
        }
        i = i + 1;
    }
    false
}

/// `v` without the copies of `c` it starts with.
pub fn trim_start_chars(v: &[char], c: char) -> (r: Vec<char>)
    ensures
        r@ == trim_start(v@, c),
{
    let mut i: usize = 0;
    assert(v@.skip(0) =~= v@);
    while i < v.len() && v[i] == c
        invariant
            i <= v@.len(),
            trim_start(v@, c) == trim_start(v@.skip(i as int), c),
        decreases v@.len() - i,
    {
        assert(v@.skip(i as int).drop_first() =~= v@.skip(i + 1));
        i = i + 1;
    }
    let r = chars_between(v, i, v.len());
    assert(r@ =~= v@.skip(i as int));
    r
}

/// The path `p` taken relative to the directory `base`.
pub fn join_path_exec(base: &str, p: &str) -> (r: String)
    ensures
        r@ == join_path(base@, p@),
{
    let pv = chars_of(p);
    let bv = chars_of(base);
    if pv.len() > 0 && pv[0] == '/' {
        return string_from_chars(pv.as_slice());
    }
    let mut r = string_from_chars(bv.as_slice());
    if bv.len() > 0 && bv[bv.len() - 1] != '/' {
        string_push(&mut r, '/');
    }
    push_str(&mut r, p);
    assert(r@ =~= join_path(base@, p@));
    r
}

/// Reading the digits of `s` one more digit at a time.
proof fn lemma_digits_push(s: Seq<char>, ch: char)
    ensures
        digits_value(s.push(ch)) == digits_value(s) * 10 + digit_value(ch) || !is_digit(ch),
{
    assert(s.push(ch).drop_last() =~= s);
}

/// The `u32` that `str::parse` reads from `v`, if any.
pub fn parse_u32_chars(v: &[char]) -> (r: Option<u32>)
    ensures
        r == parse_u32_spec(v@),
{
    let start: usize = if v.len() > 0 && v[0] == '+' { 1 } else { 0 };
    let ghost d = if v@.len() > 0 && v@[0] == '+' { v@.drop_first() } else { v@ };
    assert(d =~= v@.skip(start as int));
    if start >= v.len() {
        return None;
    }
    let mut acc: u64 = 0;
    let mut i = start;
    assert(v@.subrange(start as int, start as int) =~= Seq::<char>::empty());
    while i < v.len()
        invariant
            start <= i <= v@.len(),
            d =~= v@.skip(start as int),
            d == (if v@.len() > 0 && v@[0] == '+' { v@.drop_first() } else { v@ }),
            all_digits(v@.subrange(start as int, i as int)),
            acc == digits_value(v@.subrange(start as int, i as int)),
            acc <= u32::MAX,
        decreases v@.len() - i,
    {
        let ch = v[i];
        assert(v@.subrange(start as int, i + 1) =~= v@.subrange(start as int, i as int).push(ch));
        if !('0' <= ch && ch <= '9') {
            assert(!all_digits(d)) by {
                assert(d[i - start] == ch);
                assert(!is_digit(d[i - start]));
            }
            return None;
        }
        proof {
            lemma_digits_push(v@.subrange(start as int, i as int), ch);
        }
        acc = acc * 10 + (ch as u64 - '0' as u64);
        i = i + 1;
        if acc > u32::MAX as u64 {
            proof {
                assert(d.take(i - start) =~= v@.subrange(start as int, i as int));
                lemma_digits_prefix_bound(d, (i - start) as int);
            }
            return None;
        }
    }
    assert(v@.subrange(start as int, i as int) =~= d);
    Some(acc as u32)
}

/// A number's digits are worth at least as much as any prefix of them.
proof fn lemma_digits_prefix_bound(d: Seq<char>, k: int)
    requires
        0 <= k <= d.len(),
        all_digits(d.take(k)),
    ensures
        all_digits(d) ==> digits_value(d) >= digits_value(d.take(k)),
    decreases d.len() - k,
{
    if k < d.len() && all_digits(d) {
        assert(d.take(k + 1).drop_last() =~= d.take(k));
        assert(all_digits(d.take(k + 1)));
        lemma_digits_prefix_bound(d, k + 1);
        assert(d.take(k + 1).last() == d[k]);
        assert(is_digit(d[k]));
        assert(digits_value(d.take(k + 1)) >= digits_value(d.take(k)));
    } else if k == d.len() {
        assert(d.take(k) =~= d);
    }
}

} // verus!
