//! Reading values out of FFmpeg's progress lines.
use vstd::prelude::*;
use crate::split::{index_of, chars_between, find_char_from};
use crate::text::{chars_of, is_alpha, string_from_chars};

verus! {

/// The first offset at or after `i` where `key` occurs in `s`.
pub open spec fn find_from(s: Seq<char>, key: Seq<char>, i: int) -> Option<int>
    decreases s.len() + 1 - i,
{
    if i < 0 || i + key.len() > s.len() {
        None
    } else if s.subrange(i, i + key.len()) == key {
        Some(i)
    } else {
        find_from(s, key, i + 1)
    }
}

/// The offset of the first ASCII letter in `s`, or its length.
pub open spec fn first_alpha(s: Seq<char>) -> int
    decreases s.len(),
{
    if s.len() == 0 {
        0
    } else if is_alpha(s[0]) {
        0
    } else {
        1 + first_alpha(s.drop_first())
    }
}

/// The number of spaces that `s` starts with.
pub open spec fn lead_spaces(s: Seq<char>) -> int
    decreases s.len(),
{
    if s.len() > 0 && s[0] == ' ' {
        1 + lead_spaces(s.drop_first())
    } else {
        0
    }
}

/// Where a value at the start of `rest` ends at a space: at the first
/// space after the spaces it starts with (FFmpeg pads its numbers on the
/// left), or at the end.
pub open spec fn space_end(rest: Seq<char>) -> int {
    let lead = lead_spaces(rest);
    lead + index_of(rest.skip(lead), ' ')
}

/// Where the next `key=` in `rest` starts: at its first letter when a `=`
/// follows that letter before any space; else at the end.
pub open spec fn key_start(rest: Seq<char>) -> int {
    let pos = first_alpha(rest);
    if pos >= rest.len() {
        rest.len() as int
    } else {
        let after = rest.skip(pos);
        let eq = index_of(after, '=');
        if eq < after.len() && eq < index_of(after, ' ') {
            pos
        } else {
            rest.len() as int
        }
    }
}

/// Where the value at the start of `rest` ends: at the next space or at
/// the next key, whichever comes first.
pub open spec fn value_end(rest: Seq<char>) -> int {
    if space_end(rest) < key_start(rest) {
        space_end(rest)
    } else {
        key_start(rest)
    }
}

/// The value after the first `key` in `line`, up to the next space or the
/// next key.
pub open spec fn extract_spec(line: Seq<char>, key: Seq<char>) -> Option<Seq<char>> {
    match find_from(line, key, 0) {
        None => None,
        Some(i) => {
            let rest = line.skip(i + key.len());
            Some(rest.take(value_end(rest)))
        },
    }
}

/// Whether `key` occurs in `s` at offset `i`.
fn occurs_at(s: &Vec<char>, key: &Vec<char>, i: usize) -> (b: bool)
    requires
        i + key@.len() <= s@.len(),
    ensures
        b == (s@.subrange(i as int, i + key@.len()) == key@),
{
    let n = s.len();
    let mut k: usize = 0;
    while k < key.len()
        invariant
            k <= key@.len(),
            n == s@.len(),
            i + key@.len() <= s@.len(),
            forall|j: int| 0 <= j < k ==> s@[i + j] == key@[j],
        decreases key@.len() - k,
    {
        if s[i + k] != key[k] {
            assert(s@.subrange(i as int, i + key@.len())[k as int] != key@[k as int]);
            return false;
        }
        k = k + 1;
    }
    assert(s@.subrange(i as int, i + key@.len()) =~= key@);
    true
}

/// The offset of the first ASCII letter in `v` at or after `start`.
fn first_alpha_from(v: &Vec<char>, start: usize) -> (p: usize)
    requires
        start <= v@.len(),
    ensures
        p == start + first_alpha(v@.skip(start as int)),
        start <= p <= v@.len(),
{
    let mut p = start;
    while p < v.len() && !(('a' <= v[p] && v[p] <= 'z') || ('A' <= v[p] && v[p] <= 'Z'))
        invariant
            start <= p <= v@.len(),
            first_alpha(v@.skip(start as int)) == (p - start) + first_alpha(v@.skip(p as int)),
        decreases v@.len() - p,
    {
        assert(v@.skip(p as int).drop_first() =~= v@.skip(p + 1));
        p = p + 1;
    }
    p
}

/// The value after the first `key` in `line`, up to the next space or the
/// next key (a word followed by `=`).
pub fn extract_value(line: &str, key: &str) -> (r: Option<String>)
    ensures
        extract_spec(line@, key@) == match r {
            Some(s) => Some(s@),
            None => None,
        },
{
    let lv = chars_of(line);
    let kv = chars_of(key);
    if kv.len() > lv.len() {
        return None;
    }
    let mut i: usize = 0;
    let last = lv.len() - kv.len();
    let mut found = false;
    loop
        invariant_except_break
            !found,
        invariant
            last + kv@.len() == lv@.len(),
            lv@ == line@,
            kv@ == key@,
            find_from(line@, key@, 0) == find_from(line@, key@, i as int),
            i <= last,
        ensures
            i <= last,
            found ==> find_from(line@, key@, 0) == Some(i as int),
            !found ==> find_from(line@, key@, 0) is None,
        decreases last - i,
    {
        if occurs_at(&lv, &kv, i) {
            assert(line@.subrange(i as int, i + key@.len()) == key@);
            assert(find_from(line@, key@, i as int) == Some(i as int));
            found = true;
            break;
        }
        if i == last {
            assert(find_from(line@, key@, i + 1) is None);
            break;
        }
        i = i + 1;
    }
    if !found {
        return None;
    }
    let start = i + kv.len();
    let ghost rest = line@.skip(start as int);
    let pos = first_alpha_from(&lv, start);
    let mut kend = lv.len();
    if pos < lv.len() {
        let eq = find_char_from(lv.as_slice(), '=', pos);
        let sp = find_char_from(lv.as_slice(), ' ', pos);
        assert(lv@.skip(pos as int) =~= rest.skip(pos - start));
        if eq < lv.len() && eq < sp {
            kend = pos;
        }
    }
    let mut p = start;
    assert(lv@.skip(start as int) =~= rest);
    while p < lv.len() && lv[p] == ' '
        invariant
            start <= p <= lv@.len(),
            lv@ == line@,
            rest == line@.skip(start as int),
            lead_spaces(rest) == (p - start) + lead_spaces(lv@.skip(p as int)),
        decreases lv@.len() - p,
    {
        assert(lv@.skip(p as int).drop_first() =~= lv@.skip(p + 1));
        p = p + 1;
    }
    let send = find_char_from(lv.as_slice(), ' ', p);
    assert(rest.skip(p - start) =~= lv@.skip(p as int));
    assert(send - start == space_end(rest));
    assert(kend - start == key_start(rest));
    let end = if send < kend { send } else { kend };
    let v = chars_between(lv.as_slice(), start, end);
    assert(v@ =~= rest.take(value_end(rest)));
    Some(string_from_chars(v.as_slice()))
}

} // verus!
