//! Lexical analysis: source text to tokens.
use vstd::prelude::*;
use crate::error::{err, ErrView, ErrorKind, VeacError};
use crate::fixed::{pow10, Fixed};
use crate::text::{
    all_digits, chars_eq_str, chars_of, digit_value, digits_value, is_alnum, is_alnum_exec, is_alpha,
    is_alpha_exec, is_digit, is_digit_exec, is_hex, is_hex_exec, is_space, is_space_exec, push_str,
    string_from_chars, string_push,
};
use crate::token::{KindView, Span, Token, TokenKind};

verus! {

// ---------------------------------------------------------------------------
// Positions: lines and columns
// ---------------------------------------------------------------------------

/// `x + 1`, held at `usize::MAX` once it is reached.
pub open spec fn sat_inc(x: int) -> int {
    if x < usize::MAX {
        x + 1
    } else {
        x
    }
}

/// The 1-based line of offset `p` in `c`.
pub open spec fn line_at(c: Seq<char>, p: int) -> int
    decreases p,
{
    if p <= 0 {
        1
    } else if c[p - 1] == '\n' {
        sat_inc(line_at(c, p - 1))
    } else {
        line_at(c, p - 1)
    }
}

/// The 1-based column of offset `p` in `c`.
pub open spec fn col_at(c: Seq<char>, p: int) -> int
    decreases p,
{
    if p <= 0 {
        1
    } else if c[p - 1] == '\n' {
        1
    } else {
        sat_inc(col_at(c, p - 1))
    }
}

/// The span from offset `s` to offset `e`, located at `s`.
pub open spec fn span_of(c: Seq<char>, s: int, e: int) -> Span {
    Span { start: s as usize, end: e as usize, line: line_at(c, s) as usize, col: col_at(c, s) as usize }
}

// ---------------------------------------------------------------------------
// Scanning
// ---------------------------------------------------------------------------

/// The end of the run of white space that starts at `p`.
pub open spec fn ws_end(c: Seq<char>, p: int) -> int
    decreases c.len() - p,
{
    if 0 <= p < c.len() && is_space(c[p]) {
        ws_end(c, p + 1)
    } else {
        p
    }
}

/// The offset of the next `'\n'` at or after `p`, or the end of `c`.
pub open spec fn line_end(c: Seq<char>, p: int) -> int
    decreases c.len() - p,
{
    if 0 <= p < c.len() && c[p] != '\n' {
        line_end(c, p + 1)
    } else {
        p
    }
}

/// `c[p]` and `c[p + 1]` open a `//` comment.
pub open spec fn comment_at(c: Seq<char>, p: int) -> bool {
    0 <= p && p + 1 < c.len() && c[p] == '/' && c[p + 1] == '/'
}

/// The offset of the first token at or after `p`: white space and `//`
/// comments (up to, not including, the end of their line) are skipped.
pub open spec fn trivia_end(c: Seq<char>, p: int) -> int
    decreases c.len() - p,
{
    let q = ws_end(c, p);
    if comment_at(c, q) {
        let r = line_end(c, q + 2);
        if p < r <= c.len() {
            trivia_end(c, r)
        } else {
            q
        }
    } else {
        q
    }
}

/// An identifier character: an ASCII letter, digit or `_`.
pub open spec fn is_word(ch: char) -> bool {
    is_alnum(ch) || ch == '_'
}

/// The end of the run of identifier characters that starts at `p`.
pub open spec fn word_end(c: Seq<char>, p: int) -> int
    decreases c.len() - p,
{
    if 0 <= p < c.len() && is_word(c[p]) {
        word_end(c, p + 1)
    } else {
        p
    }
}

/// The end of the run of hex digits that starts at `p`.
pub open spec fn hex_end(c: Seq<char>, p: int) -> int
    decreases c.len() - p,
{
    if 0 <= p < c.len() && is_hex(c[p]) {
        hex_end(c, p + 1)
    } else {
        p
    }
}

/// The end of a number that starts at `p`: digits, and at most one `.`
/// that is followed by a digit. The flag tells whether a `.` was taken.
pub open spec fn num_end(c: Seq<char>, p: int, dot: bool) -> (int, bool)
    decreases c.len() - p,
{
    if 0 <= p < c.len() && is_digit(c[p]) {
        num_end(c, p + 1, dot)
    } else if 0 <= p && p + 1 < c.len() && c[p] == '.' && !dot && is_digit(c[p + 1]) {
        num_end(c, p + 1, true)
    } else {
        (p, dot)
    }
}

/// The offset of the `"` that closes a string whose content starts at `p`;
/// a backslash makes the next character part of the content.
pub open spec fn str_end(c: Seq<char>, p: int) -> Option<int>
    decreases c.len() - p,
{
    if p < 0 || p >= c.len() {
        None
    } else if c[p] == '"' {
        Some(p)
    } else if c[p] == '\\' {
        str_end(c, if p + 2 <= c.len() { p + 2 } else { c.len() as int })
    } else {
        str_end(c, p + 1)
    }
}

// ---------------------------------------------------------------------------
// Literal values
// ---------------------------------------------------------------------------

/// `s` has the shape of an SMPTE timecode: `HH:MM:SS:FF`, two digits each.
pub open spec fn smpte_shape(s: Seq<char>) -> bool {
    s.len() == 11 && forall|i: int|
        0 <= i < 11 ==> (if i % 3 == 2 { s[i] == ':' } else { is_digit(#[trigger] s[i]) })
}

/// The offset of the first `.` in `s`, or its length.
pub open spec fn dot_index(s: Seq<char>) -> int
    decreases s.len(),
{
    if s.len() == 0 {
        0
    } else if s[0] == '.' {
        0
    } else {
        1 + dot_index(s.drop_first())
    }
}

/// The first nine characters of `f`, padded with `'0'`.
pub open spec fn pad9(f: Seq<char>) -> Seq<char> {
    Seq::new(9, |i: int| if i < f.len() { f[i] } else { '0' })
}

/// The value in billionths of a decimal literal `ddd` or `ddd.ddd`, its
/// fractional digits beyond the ninth dropped.
pub open spec fn decimal_raw(s: Seq<char>) -> int {
    let d = dot_index(s);
    let ip = s.take(d);
    let fp = if d < s.len() { s.skip(d + 1) } else { Seq::empty() };
    digits_value(ip) as int * 1_000_000_000 + digits_value(pad9(fp)) as int
}

/// The keyword or identifier that the word `w` stands for.
pub open spec fn word_kind(w: Seq<char>) -> KindView {
    if w == "project"@ {
        KindView::Project
    } else if w == "asset"@ {
        KindView::Asset
    } else if w == "timeline"@ {
        KindView::Timeline
    } else if w == "track"@ {
        KindView::Track
    } else if w == "clip"@ {
        KindView::Clip
    } else if w == "text"@ {
        KindView::Text
    } else if w == "transition"@ {
        KindView::Transition
    } else if w == "let"@ {
        KindView::Let
    } else if w == "include"@ {
        KindView::Include
    } else if w == "video"@ {
        KindView::Video
    } else if w == "audio"@ {
        KindView::Audio
    } else if w == "image"@ {
        KindView::Image
    } else if w == "true"@ {
        KindView::BoolLit(true)
    } else if w == "false"@ {
        KindView::BoolLit(false)
    } else {
        KindView::Ident(w)
    }
}

/// The kind of a one-character punctuation token.
pub open spec fn punct_kind(ch: char) -> Option<KindView> {
    if ch == '{' {
        Some(KindView::LBrace)
    } else if ch == '}' {
        Some(KindView::RBrace)
    } else if ch == '(' {
        Some(KindView::LParen)
    } else if ch == ')' {
        Some(KindView::RParen)
    } else if ch == '=' {
        Some(KindView::Equals)
    } else if ch == ',' {
        Some(KindView::Comma)
    } else if ch == '.' {
        Some(KindView::Dot)
    } else {
        None
    }
}

// ---------------------------------------------------------------------------
// One token
// ---------------------------------------------------------------------------

/// The outcome of lexing one token: the token and the offset after it, or
/// an error and the offset the lexer stopped at.
pub type LexStep = Result<(KindView, Span, int), (ErrView, int)>;

/// A nonnegative number of billionths as a `Fixed` holds it: the largest
/// `Fixed` for a number beyond its range.
pub open spec fn sat_raw(x: int) -> i64 {
    if x <= i64::MAX {
        x as i64
    } else {
        i64::MAX
    }
}

/// The number token whose text starts at `s` (at a `-` for a negative number)
/// and whose digits start at `n0`.
pub open spec fn number_token(c: Seq<char>, s: int, n0: int) -> LexStep {
    let (q, dot) = num_end(c, n0, false);
    let txt = c.subrange(n0, q);
    let sp = span_of(c, s, q);
    if q < c.len() && c[q] == 's' {
        Ok((KindView::TimeSec(Fixed { raw: sat_raw(decimal_raw(txt)) }), sp, q + 1))
    } else if q + 1 < c.len() && c[q] == 'm' && c[q + 1] == 's' {
        Ok((KindView::TimeMs(Fixed { raw: sat_raw(decimal_raw(txt)) }), sp, q + 2))
    } else if q < c.len() && c[q] == 'f' && !dot {
        let v = digits_value(txt);
        if v <= u64::MAX {
            Ok((KindView::TimeFrames(v as u64), sp, q + 1))
        } else {
            Err((err(ErrorKind::InvalidTimeLiteral, "invalid frame value `"@ + txt + "f`"@, Some(sp), None), q + 1))
        }
    } else if dot {
        Ok((KindView::FloatLit(Fixed { raw: sat_raw(decimal_raw(txt)) }), sp, q))
    } else {
        let v = digits_value(txt);
        if v <= i64::MAX {
            Ok((KindView::IntLit(v as i64), sp, q))
        } else {
            Err((err(ErrorKind::InvalidNumber, "invalid integer literal `"@ + txt + "`"@, Some(sp), None), q))
        }
    }
}

/// A number kind with its value negated; other kinds unchanged.
pub open spec fn negated(k: KindView) -> KindView {
    match k {
        KindView::IntLit(n) => KindView::IntLit((-n) as i64),
        KindView::FloatLit(x) => KindView::FloatLit(Fixed { raw: (-x.raw) as i64 }),
        KindView::TimeSec(x) => KindView::TimeSec(Fixed { raw: (-x.raw) as i64 }),
        KindView::TimeMs(x) => KindView::TimeMs(Fixed { raw: (-x.raw) as i64 }),
        other => other,
    }
}

/// The token that starts exactly at offset `p` of `c`.
pub open spec fn lex_at(c: Seq<char>, p: int) -> LexStep {
    if p >= c.len() {
        Ok((KindView::Eof, span_of(c, p, p), p))
    } else {
        let ch = c[p];
        if ch == '"' {
            match str_end(c, p + 1) {
                None => Err((
                    err(
                        ErrorKind::UnterminatedString,
                        "unterminated string literal"@,
                        Some(span_of(c, p, c.len() as int)),
                        Some("add a closing `\"` to terminate the string"@),
                    ),
                    c.len() as int,
                )),
                Some(q) => {
                    let content = c.subrange(p + 1, q);
                    let kind = if smpte_shape(content) {
                        KindView::Smpte(content)
                    } else {
                        KindView::StringLit(content)
                    };
                    Ok((kind, span_of(c, p, q + 1), q + 1))
                },
            }
        } else if ch == '#' {
            let q = hex_end(c, p + 1);
            let hex = c.subrange(p + 1, q);
            if hex.len() != 6 && hex.len() != 8 {
                Err((
                    err(
                        ErrorKind::InvalidColor,
                        "invalid color literal `#"@ + hex + "`, expected 6 or 8 hex digits"@,
                        Some(span_of(c, p, q)),
                        Some("use format #RRGGBB or #RRGGBBAA"@),
                    ),
                    q,
                ))
            } else {
                Ok((KindView::ColorLit(hex), span_of(c, p, q), q))
            }
        } else if is_digit(ch) {
            number_token(c, p, p)
        } else if ch == '-' && p + 1 < c.len() && is_digit(c[p + 1]) {
            match number_token(c, p, p + 1) {
                Ok((k, sp, q)) => Ok((negated(k), sp, q)),
                Err(e) => Err(e),
            }
        } else if is_alpha(ch) || ch == '_' {
            let q = word_end(c, p);
            Ok((word_kind(c.subrange(p, q)), span_of(c, p, q), q))
        } else {
            match punct_kind(ch) {
                Some(k) => Ok((k, span_of(c, p, p + 1), p + 1)),
                None => Err((
                    err(ErrorKind::UnexpectedChar, "unexpected character `"@ + seq![ch] + "`"@, Some(span_of(c, p, p)), None),
                    p,
                )),
            }
        }
    }
}

/// The next token after offset `p`: trivia skipped, then one token.
pub open spec fn next_at(c: Seq<char>, p: int) -> LexStep {
    lex_at(c, trivia_end(c, p))
}

/// All tokens from offset `p` on, up to and including the end-of-file token,
/// or the first error.
pub open spec fn tokens_from(c: Seq<char>, p: int) -> Result<Seq<(KindView, Span)>, ErrView>
    decreases c.len() - p,
{
    match next_at(c, p) {
        Err((e, _)) => Err(e),
        Ok((k, sp, q)) => {
            if k is Eof {
                Ok(seq![(k, sp)])
            } else if p < q <= c.len() {
                match tokens_from(c, q) {
                    Ok(rest) => Ok(seq![(k, sp)] + rest),
                    Err(e) => Err(e),
                }
            } else {
                Ok(seq![(k, sp)])
            }
        },
    }
}

/// The tokens of a whole source text, or its first lexical error.
pub open spec fn tokenize_spec(c: Seq<char>) -> Result<Seq<(KindView, Span)>, ErrView> {
    tokens_from(c, 0)
}

// ---------------------------------------------------------------------------
// Facts about scanning
// ---------------------------------------------------------------------------

proof fn lemma_ws_end(c: Seq<char>, p: int)
    requires
        0 <= p <= c.len(),
    ensures
        p <= ws_end(c, p) <= c.len(),
    decreases c.len() - p,
{
    if p < c.len() && is_space(c[p]) {
        lemma_ws_end(c, p + 1);
    }
}

proof fn lemma_line_end(c: Seq<char>, p: int)
    requires
        0 <= p <= c.len(),
    ensures
        p <= line_end(c, p) <= c.len(),
    decreases c.len() - p,
{
    if p < c.len() && c[p] != '\n' {
        lemma_line_end(c, p + 1);
    }
}

proof fn lemma_trivia_end(c: Seq<char>, p: int)
    requires
        0 <= p <= c.len(),
    ensures
        p <= trivia_end(c, p) <= c.len(),
    decreases c.len() - p,
{
    lemma_ws_end(c, p);
    let q = ws_end(c, p);
    if comment_at(c, q) {
        lemma_line_end(c, q + 2);
        lemma_trivia_end(c, line_end(c, q + 2));
    }
}

proof fn lemma_word_end(c: Seq<char>, p: int)
    requires
        0 <= p <= c.len(),
    ensures
        p <= word_end(c, p) <= c.len(),
        forall|i: int| p <= i < word_end(c, p) ==> is_word(#[trigger] c[i]),
    decreases c.len() - p,
{
    if p < c.len() && is_word(c[p]) {
        lemma_word_end(c, p + 1);
    }
}

proof fn lemma_hex_end(c: Seq<char>, p: int)
    requires
        0 <= p <= c.len(),
    ensures
        p <= hex_end(c, p) <= c.len(),
    decreases c.len() - p,
{
    if p < c.len() && is_hex(c[p]) {
        lemma_hex_end(c, p + 1);
    }
}

proof fn lemma_str_end(c: Seq<char>, p: int)
    requires
        0 <= p <= c.len(),
    ensures
        str_end(c, p) matches Some(q) ==> p <= q < c.len() && c[q] == '"',
    decreases c.len() - p,
{
    if p < c.len() && c[p] != '"' {
        if c[p] == '\\' {
            lemma_str_end(c, if p + 2 <= c.len() { p + 2 } else { c.len() as int });
        } else {
            lemma_str_end(c, p + 1);
        }
    }
}

/// The text that `num_end` covers: digits and at most one `.`, which is
/// present exactly when the flag says so (when none was taken before).
proof fn lemma_num_end(c: Seq<char>, p: int, dot: bool)
    requires
        0 <= p <= c.len(),
    ensures
        ({
            let (q, d) = num_end(c, p, dot);
            &&& p <= q <= c.len()
            &&& forall|i: int| p <= i < q ==> is_digit(#[trigger] c[i]) || c[i] == '.'
            &&& forall|i: int, j: int| p <= i < q && p <= j < q && c[i] == '.' && c[j] == '.' ==> i == j
            &&& dot ==> d && forall|i: int| p <= i < q ==> is_digit(#[trigger] c[i])
            &&& !dot && !d ==> forall|i: int| p <= i < q ==> is_digit(#[trigger] c[i])
            &&& (q > p ==> is_digit(c[q - 1]))
            &&& (p < c.len() && is_digit(c[p]) ==> q > p)
        }),
    decreases c.len() - p,
{
    if p < c.len() && is_digit(c[p]) {
        lemma_num_end(c, p + 1, dot);
    } else if p + 1 < c.len() && c[p] == '.' && !dot && is_digit(c[p + 1]) {
        lemma_num_end(c, p + 1, true);
        let (q, d) = num_end(c, p + 1, true);
        assert(num_end(c, p, dot) == (q, d));
        assert forall|i: int, j: int| p <= i < q && p <= j < q && c[i] == '.' && c[j] == '.' implies i == j by {
            if i != p {
                assert(is_digit(c[i]));
            }
            if j != p {
                assert(is_digit(c[j]));
            }
        }
    }
}

proof fn lemma_dot_index(s: Seq<char>, d: int)
    requires
        0 <= d <= s.len(),
        forall|k: int| 0 <= k < d ==> s[k] != '.',
        d == s.len() || s[d] == '.',
    ensures
        dot_index(s) == d,
    decreases s.len(),
{
    if s.len() > 0 && s[0] != '.' {
        lemma_dot_index(s.drop_first(), d - 1);
    }
}

proof fn lemma_digits_value_mono(s: Seq<char>, ch: char)
    requires
        is_digit(ch),
    ensures
        digits_value(s.push(ch)) >= digits_value(s),
        digits_value(s.push(ch)) == digits_value(s) * 10 + digit_value(ch),
{
    assert(s.push(ch).drop_last() =~= s);
}

// ---------------------------------------------------------------------------
// Literal values, executable
// ---------------------------------------------------------------------------

/// The value of the digits `c[a..b]` when it is at most `limit`.
pub fn digits_upto(c: &Vec<char>, a: usize, b: usize, limit: u128) -> (r: Option<u128>)
    requires
        a <= b <= c@.len(),
        forall|i: int| a <= i < b ==> is_digit(#[trigger] c@[i]),
        limit <= 10_000_000_000_000_000_000_000_000_000_000_000_000u128,
    ensures
        match r {
            Some(v) => v == digits_value(c@.subrange(a as int, b as int)) && v <= limit,
            None => digits_value(c@.subrange(a as int, b as int)) > limit,
        },
{
    let mut acc: u128 = 0;
    let mut over = false;
    let mut i = a;
    assert(c@.subrange(a as int, a as int) =~= Seq::<char>::empty());
    while i < b
        invariant
            a <= i <= b,
            b <= c@.len(),
            forall|k: int| a <= k < b ==> is_digit(#[trigger] c@[k]),
            limit <= 10_000_000_000_000_000_000_000_000_000_000_000_000u128,
            !over ==> acc == digits_value(c@.subrange(a as int, i as int)) && acc <= limit,
            over ==> digits_value(c@.subrange(a as int, i as int)) > limit,
        decreases b - i,
    {
        let ch = c[i];
        proof {
            assert(c@.subrange(a as int, i + 1) =~= c@.subrange(a as int, i as int).push(ch));
            lemma_digits_value_mono(c@.subrange(a as int, i as int), ch);
        }
        if !over {
            let d = (ch as u32 - '0' as u32) as u128;
            acc = acc * 10 + d;
            if acc > limit {
                over = true;
            }
        }
        i = i + 1;
    }
    if over {
        None
    } else {
        Some(acc)
    }
}

/// The value in billionths of the decimal literal `c[a..b]`, when it fits
/// in an `i64`.
fn decimal_value(c: &Vec<char>, a: usize, b: usize) -> (r: Option<i64>)
    requires
        a <= b <= c@.len(),
        forall|i: int| a <= i < b ==> is_digit(#[trigger] c@[i]) || c@[i] == '.',
        forall|i: int, j: int| a <= i < b && a <= j < b && c@[i] == '.' && c@[j] == '.' ==> i == j,
    ensures
        r == (if decimal_raw(c@.subrange(a as int, b as int)) <= i64::MAX {
            Some(decimal_raw(c@.subrange(a as int, b as int)) as i64)
        } else {
            None::<i64>
        }),
{
    let ghost txt = c@.subrange(a as int, b as int);
    let mut d = a;
    while d < b && c[d] != '.'
        invariant
            a <= d <= b,
            b <= c@.len(),
            forall|k: int| a <= k < d ==> c@[k] != '.',
        decreases b - d,
    {
        d = d + 1;
    }
    proof {
        lemma_dot_index(txt, d - a);
        assert(txt.take(d - a) =~= c@.subrange(a as int, d as int));
    }
    let f0 = if d < b { d + 1 } else { b };
    let ghost fp = if d < b { txt.skip(d - a + 1) } else { Seq::<char>::empty() };
    assert(fp =~= c@.subrange(f0 as int, b as int));
    let ip = match digits_upto(c, a, d, i64::MAX as u128) {
        Some(v) => v,
        None => {
            return None;
        },
    };
    let mut fv: u128 = 0;
    let mut i: usize = 0;
    let ghost padded = pad9(fp);
    assert(padded.take(0) =~= Seq::<char>::empty());
    while i < 9
        invariant
            i <= 9,
            f0 <= b <= c@.len(),
            fp =~= c@.subrange(f0 as int, b as int),
            forall|k: int| f0 <= k < b ==> is_digit(#[trigger] c@[k]),
            padded == pad9(fp),
            fv == digits_value(padded.take(i as int)),
            fv < 1_000_000_000,
            fv < crate::fixed::pow10(i as nat),
        decreases 9 - i,
    {
        let ch = if i < b - f0 { c[f0 + i] } else { '0' };
        assert(ch == padded[i as int]);
        proof {
            assert(padded.take(i + 1) =~= padded.take(i as int).push(ch));
            lemma_digits_value_mono(padded.take(i as int), ch);
        }
        let dv = (ch as u32 - '0' as u32) as u128;
        fv = fv * 10 + dv;
        i = i + 1;
        assert(fv < crate::fixed::pow10(i as nat));
        assert(crate::fixed::pow10(i as nat) <= 1_000_000_000) by {
            reveal_with_fuel(crate::fixed::pow10, 10);
        }
    }
    assert(padded.take(9) =~= padded);
    let raw: u128 = ip * 1_000_000_000 + fv;
    if raw <= i64::MAX as u128 {
        Some(raw as i64)
    } else {
        None
    }
}

/// The value in billionths of the decimal literal `c[a..b]`, or the largest
/// `Fixed` when it is beyond that range.
pub fn decimal_saturated(c: &Vec<char>, a: usize, b: usize) -> (r: i64)
    requires
        a <= b <= c@.len(),
        forall|i: int| a <= i < b ==> is_digit(#[trigger] c@[i]) || c@[i] == '.',
        forall|i: int, j: int| a <= i < b && a <= j < b && c@[i] == '.' && c@[j] == '.' ==> i == j,
    ensures
        r == sat_raw(decimal_raw(c@.subrange(a as int, b as int))),
{
    match decimal_value(c, a, b) {
        Some(v) => v,
        None => i64::MAX,
    }
}

/// Whether `v` has the shape of an SMPTE timecode `HH:MM:SS:FF`.
fn smpte_chars(v: &[char]) -> (b: bool)
    ensures
        b == smpte_shape(v@),
{
    if v.len() != 11 {
        return false;
    }
    let mut i: usize = 0;
    while i < 11
        invariant
            v@.len() == 11,
            i <= 11,
            forall|k: int| 0 <= k < i ==> (if k % 3 == 2 { v@[k] == ':' } else { is_digit(#[trigger] v@[k]) }),
        decreases 11 - i,
    {
        if i % 3 == 2 {
            if v[i] != ':' {
                return false;
            }
        } else if !is_digit_exec(v[i]) {
            return false;
        }
        i = i + 1;
    }
    true
}

/// Check if a string matches SMPTE timecode format: `HH:MM:SS:FF`.
pub fn is_smpte(s: &str) -> (b: bool)
    ensures
        b == smpte_shape(s@),
{
    let v = chars_of(s);
    smpte_chars(v.as_slice())
}

/// The keyword or identifier token kind for the word `w`.
fn word_token(w: Vec<char>) -> (k: TokenKind)
    ensures
        k@ == word_kind(w@),
{
    let ws = w.as_slice();
    if chars_eq_str(ws, "project") {
        TokenKind::Project
    } else if chars_eq_str(ws, "asset") {
        TokenKind::Asset
    } else if chars_eq_str(ws, "timeline") {
        TokenKind::Timeline
    } else if chars_eq_str(ws, "track") {
        TokenKind::Track
    } else if chars_eq_str(ws, "clip") {
        TokenKind::Clip
    } else if chars_eq_str(ws, "text") {
        TokenKind::Text
    } else if chars_eq_str(ws, "transition") {
        TokenKind::Transition
    } else if chars_eq_str(ws, "let") {
        TokenKind::Let
    } else if chars_eq_str(ws, "include") {
        TokenKind::Include
    } else if chars_eq_str(ws, "video") {
        TokenKind::Video
    } else if chars_eq_str(ws, "audio") {
        TokenKind::Audio
    } else if chars_eq_str(ws, "image") {
        TokenKind::Image
    } else if chars_eq_str(ws, "true") {
        TokenKind::BoolLit(true)
    } else if chars_eq_str(ws, "false") {
        TokenKind::BoolLit(false)
    } else {
        TokenKind::Ident(string_from_chars(ws))
    }
}

/// The characters `c[a..b]`.
fn slice_chars(c: &Vec<char>, a: usize, b: usize) -> (v: Vec<char>)
    requires
        a <= b <= c@.len(),
    ensures
        v@ == c@.subrange(a as int, b as int),
{
    let mut v: Vec<char> = Vec::new();
    let mut i = a;
    while i < b
        invariant
            a <= i <= b,
            b <= c@.len(),
            v@ =~= c@.subrange(a as int, i as int),
        decreases b - i,
    {
        v.push(c[i]);
        i = i + 1;
    }
    v
}

// ---------------------------------------------------------------------------
// The lexer
// ---------------------------------------------------------------------------

/// Lexical analyzer for VEAC source code.
pub struct Lexer {
    pub chars: Vec<char>,
    pub pos: usize,
    pub line: usize,
    pub col: usize,
}

/// A run of tokens, held by their views.
pub open spec fn token_views(ts: Seq<Token>) -> Seq<(KindView, Span)> {
    ts.map_values(|t: Token| t@)
}

impl Lexer {
    /// The lexer is at offset `pos`, and `line`/`col` locate that offset.
    pub open spec fn wf(&self) -> bool {
        &&& self.pos <= self.chars@.len()
        &&& self.line == line_at(self.chars@, self.pos as int)
        &&& self.col == col_at(self.chars@, self.pos as int)
    }

    pub fn new(source: &str) -> (l: Self)
        ensures
            l.chars@ == source@,
            l.pos == 0,
            l.wf(),
    {
        Lexer { chars: chars_of(source), pos: 0, line: 1, col: 1 }
    }

    /// Tokenize the entire source, returning all tokens or the first error.
    pub fn tokenize(&mut self) -> (r: Result<Vec<Token>, VeacError>)
        requires
            old(self).wf(),
        ensures
            final(self).wf(),
            final(self).chars@ == old(self).chars@,
            match tokens_from(old(self).chars@, old(self).pos as int) {
                Ok(ts) => r matches Ok(v) && token_views(v@) == ts,
                Err(e) => r matches Err(x) && x@ == e,
            },
    {
        let ghost c = self.chars@;
        let ghost p0 = self.pos as int;
        let mut tokens: Vec<Token> = Vec::new();
        assert(token_views(tokens@) =~= Seq::<(KindView, Span)>::empty());
        assert(prepend(Seq::empty(), tokens_from(c, p0)) == tokens_from(c, p0)) by {
            match tokens_from(c, p0) {
                Ok(rest) => {
                    assert(Seq::<(KindView, Span)>::empty() + rest =~= rest);
                },
                Err(_) => {},
            }
        }
        loop
            invariant
                self.wf(),
                self.chars@ == c,
                old(self).chars@ == c,
                old(self).pos == p0,
                p0 <= self.pos,
                tokens_from(c, p0) == prepend(token_views(tokens@), tokens_from(c, self.pos as int)),
            decreases c.len() - self.pos,
        {
            let ghost p = self.pos as int;
            let ghost before = token_views(tokens@);
            let tok = match self.next_token() {
                Ok(t) => t,
                Err(e) => {
                    proof {
                        match next_at(c, p) {
                            Err((ev, _)) => {
                                assert(tokens_from(c, p) == Err::<Seq<(KindView, Span)>, ErrView>(ev));
                                assert(ev == e@);
                                assert(tokens_from(c, p0) == Err::<Seq<(KindView, Span)>, ErrView>(e@));
                            },
                            Ok(_) => {},
                        }
                    }
                    return Err(e);
                },
            };
            let is_eof = match tok.kind {
                TokenKind::Eof => true,
                _ => false,
            };
            let ghost tv = tok@;
            tokens.push(tok);
            proof {
                assert(token_views(tokens@) =~= before.push(tv));
                lemma_next_advances(c, p);
                lemma_prepend_step(before, tv, tokens_from(c, self.pos as int));
            }
            proof {
                if is_eof {
                    assert(tokens_from(c, p) == Ok::<Seq<(KindView, Span)>, ErrView>(seq![tv]));
                } else {
                    assert(tokens_from(c, p) == prepend(seq![tv], tokens_from(c, self.pos as int)));
                }
            }
            if is_eof {
                assert(before + seq![tv] =~= before.push(tv));
                assert(tokens_from(c, p0) == Ok::<Seq<(KindView, Span)>, ErrView>(token_views(tokens@)));
                return Ok(tokens);
            }
        }
    }

    pub fn current(&self) -> (r: Option<char>)
        ensures
            r == (if self.pos < self.chars@.len() { Some(self.chars@[self.pos as int]) } else { None::<char> }),
    {
        if self.pos < self.chars.len() {
            Some(self.chars[self.pos])
        } else {
            None
        }
    }

    pub fn peek(&self) -> (r: Option<char>)
        ensures
            r == (if self.pos + 1 < self.chars@.len() { Some(self.chars@[self.pos + 1]) } else { None::<char> }),
    {
        if self.chars.len() > 0 && self.pos < self.chars.len() - 1 {
            Some(self.chars[self.pos + 1])
        } else {
            None
        }
    }

    pub fn advance(&mut self) -> (r: Option<char>)
        requires
            old(self).wf(),
        ensures
            final(self).wf(),
            final(self).chars == old(self).chars,
            r == (if old(self).pos < old(self).chars@.len() { Some(old(self).chars@[old(self).pos as int]) } else { None::<char> }),
            final(self).pos == (if old(self).pos < old(self).chars@.len() { old(self).pos + 1 } else { old(self).pos as int }),
    {
        if self.pos >= self.chars.len() {
            return None;
        }
        let ch = self.chars[self.pos];
        self.pos = self.pos + 1;
        if ch == '\n' {
            if self.line < usize::MAX {
                self.line = self.line + 1;
            }
            self.col = 1;
        } else if self.col < usize::MAX {
            self.col = self.col + 1;
        }
        Some(ch)
    }

    pub fn skip_whitespace(&mut self)
        requires
            old(self).wf(),
        ensures
            final(self).wf(),
            final(self).chars == old(self).chars,
            final(self).pos == ws_end(old(self).chars@, old(self).pos as int),
    {
        while self.pos < self.chars.len() && is_space_exec(self.chars[self.pos])
            invariant
                self.wf(),
                self.chars == old(self).chars,
                ws_end(self.chars@, self.pos as int) == ws_end(old(self).chars@, old(self).pos as int),
            decreases self.chars@.len() - self.pos,
        {
            self.advance();
        }
    }

    pub fn span_from(&self, start: usize, start_line: usize, start_col: usize) -> (s: Span)
        ensures
            s == (Span { start, end: self.pos, line: start_line, col: start_col }),
    {
        Span::new(start, self.pos, start_line, start_col)
    }

    /// Skip white space and `//` comments.
    fn skip_trivia(&mut self)
        requires
            old(self).wf(),
        ensures
            final(self).wf(),
            final(self).chars == old(self).chars,
            final(self).pos == trivia_end(old(self).chars@, old(self).pos as int),
    {
        let ghost c = self.chars@;
        loop
            invariant
                self.wf(),
                self.chars == old(self).chars,
                c == self.chars@,
                trivia_end(c, self.pos as int) == trivia_end(c, old(self).pos as int),
            decreases c.len() - self.pos,
        {
            let ghost p = self.pos as int;
            self.skip_whitespace();
            proof {
                lemma_ws_end(c, p);
            }
            if self.current() == Some('/') && self.peek() == Some('/') {
                self.advance();
                self.advance();
                while self.pos < self.chars.len() && self.chars[self.pos] != '\n'
                    invariant
                        self.wf(),
                        self.chars == old(self).chars,
                        c == self.chars@,
                        line_end(c, self.pos as int) == line_end(c, ws_end(c, p) + 2),
                    decreases c.len() - self.pos,
                {
                    self.advance();
                }
                proof {
                    lemma_line_end(c, ws_end(c, p) + 2);
                }
            } else {
                return;
            }
        }
    }

    /// Lex the next token, skipping white space and comments before it.
    pub fn next_token(&mut self) -> (r: Result<Token, VeacError>)
        requires
            old(self).wf(),
        ensures
            final(self).wf(),
            final(self).chars == old(self).chars,
            step_matches(r, next_at(old(self).chars@, old(self).pos as int), final(self).pos as int),
    {
        self.skip_trivia();
        let start = self.pos;
        let start_line = self.line;
        let start_col = self.col;
        let ch = match self.current() {
            Some(ch) => ch,
            None => {
                return Ok(Token::new(TokenKind::Eof, self.span_from(start, start_line, start_col)));
            },
        };
        if ch == '"' {
            return self.lex_string(start, start_line, start_col);
        }
        if ch == '#' {
            return self.lex_color(start, start_line, start_col);
        }
        if is_digit_exec(ch) {
            return self.lex_number(start, start_line, start_col);
        }
        if ch == '-' {
            if let Some(n) = self.peek() {
                if is_digit_exec(n) {
                    return self.lex_negative_number(start, start_line, start_col);
                }
            }
        }
        if is_alpha_exec(ch) || ch == '_' {
            return self.lex_ident_or_keyword(start, start_line, start_col);
        }
        let kind = if ch == '{' {
            TokenKind::LBrace
        } else if ch == '}' {
            TokenKind::RBrace
        } else if ch == '(' {
            TokenKind::LParen
        } else if ch == ')' {
            TokenKind::RParen
        } else if ch == '=' {
            TokenKind::Equals
        } else if ch == ',' {
            TokenKind::Comma
        } else if ch == '.' {
            TokenKind::Dot
        } else {
            let mut msg = String::new();
            push_str(&mut msg, "unexpected character `");
            string_push(&mut msg, ch);
            push_str(&mut msg, "`");
            assert(msg@ =~= "unexpected character `"@ + seq![ch] + "`"@);
            return Err(VeacError::new(ErrorKind::UnexpectedChar, msg, Some(self.span_from(start, start_line, start_col))));
        };
        self.advance();
        Ok(Token::new(kind, self.span_from(start, start_line, start_col)))
    }
}

impl Lexer {
    fn lex_string(&mut self, start: usize, start_line: usize, start_col: usize) -> (r: Result<Token, VeacError>)
        requires
            old(self).wf(),
            start == old(self).pos,
            start < old(self).chars@.len(),
            old(self).chars@[start as int] == '"',
            start_line == line_at(old(self).chars@, start as int),
            start_col == col_at(old(self).chars@, start as int),
        ensures
            final(self).wf(),
            final(self).chars == old(self).chars,
            step_matches(r, lex_at(old(self).chars@, start as int), final(self).pos as int),
    {
        let ghost c = self.chars@;
        self.advance();
        let content_start = self.pos;
        loop
            invariant
                self.wf(),
                self.chars == old(self).chars,
                c == self.chars@,
                content_start == start + 1,
                content_start <= self.pos <= c.len(),
                start < c.len(),
                c[start as int] == '"',
                start_line == line_at(c, start as int),
                start_col == col_at(c, start as int),
                str_end(c, self.pos as int) == str_end(c, content_start as int),
            decreases c.len() - self.pos,
        {
            match self.current() {
                None => {
                    let msg = crate::text::string_of("unterminated string literal");
                    let hint = crate::text::string_of("add a closing `\"` to terminate the string");
                    return Err(
                        VeacError::new(ErrorKind::UnterminatedString, msg, Some(self.span_from(start, start_line, start_col))).with_hint(hint),
                    );
                },
                Some(ch) => {
                    if ch == '"' {
                        let content = slice_chars(&self.chars, content_start, self.pos);
                        self.advance();
                        let text = string_from_chars(content.as_slice());
                        let kind = if smpte_chars(content.as_slice()) {
                            TokenKind::Smpte(text)
                        } else {
                            TokenKind::StringLit(text)
                        };
                        return Ok(Token::new(kind, self.span_from(start, start_line, start_col)));
                    } else if ch == '\\' {
                        self.advance();
                        self.advance();
                    } else {
                        self.advance();
                    }
                },
            }
        }
    }

    fn lex_color(&mut self, start: usize, start_line: usize, start_col: usize) -> (r: Result<Token, VeacError>)
        requires
            old(self).wf(),
            start == old(self).pos,
            start < old(self).chars@.len(),
            old(self).chars@[start as int] == '#',
            start_line == line_at(old(self).chars@, start as int),
            start_col == col_at(old(self).chars@, start as int),
        ensures
            final(self).wf(),
            final(self).chars == old(self).chars,
            step_matches(r, lex_at(old(self).chars@, start as int), final(self).pos as int),
    {
        let ghost c = self.chars@;
        self.advance();
        let hex_start = self.pos;
        while self.pos < self.chars.len() && is_hex_exec(self.chars[self.pos])
            invariant
                self.wf(),
                self.chars == old(self).chars,
                c == self.chars@,
                hex_start <= self.pos <= c.len(),
                hex_end(c, self.pos as int) == hex_end(c, hex_start as int),
            decreases c.len() - self.pos,
        {
            self.advance();
        }
        let hex = slice_chars(&self.chars, hex_start, self.pos);
        let sp = self.span_from(start, start_line, start_col);
        if hex.len() != 6 && hex.len() != 8 {
            let mut msg = String::new();
            push_str(&mut msg, "invalid color literal `#");
            let hs = string_from_chars(hex.as_slice());
            push_str(&mut msg, hs.as_str());
            push_str(&mut msg, "`, expected 6 or 8 hex digits");
            let hint = crate::text::string_of("use format #RRGGBB or #RRGGBBAA");
            return Err(VeacError::new(ErrorKind::InvalidColor, msg, Some(sp)).with_hint(hint));
        }
        Ok(Token::new(TokenKind::ColorLit(string_from_chars(hex.as_slice())), sp))
    }

    fn lex_ident_or_keyword(&mut self, start: usize, start_line: usize, start_col: usize) -> (r: Result<Token, VeacError>)
        requires
            old(self).wf(),
            start == old(self).pos,
            start < old(self).chars@.len(),
            is_alpha(old(self).chars@[start as int]) || old(self).chars@[start as int] == '_',
            start_line == line_at(old(self).chars@, start as int),
            start_col == col_at(old(self).chars@, start as int),
        ensures
            final(self).wf(),
            final(self).chars == old(self).chars,
            step_matches(r, lex_at(old(self).chars@, start as int), final(self).pos as int),
    {
        let ghost c = self.chars@;
        while self.pos < self.chars.len() && (is_alnum_exec(self.chars[self.pos]) || self.chars[self.pos] == '_')
            invariant
                self.wf(),
                self.chars == old(self).chars,
                c == self.chars@,
                start <= self.pos <= c.len(),
                word_end(c, self.pos as int) == word_end(c, start as int),
            decreases c.len() - self.pos,
        {
            self.advance();
        }
        let word = slice_chars(&self.chars, start, self.pos);
        let kind = word_token(word);
        Ok(Token::new(kind, self.span_from(start, start_line, start_col)))
    }

    fn lex_number(&mut self, start: usize, start_line: usize, start_col: usize) -> (r: Result<Token, VeacError>)
        requires
            old(self).wf(),
            start <= old(self).pos < old(self).chars@.len(),
            is_digit(old(self).chars@[old(self).pos as int]),
            start_line == line_at(old(self).chars@, start as int),
            start_col == col_at(old(self).chars@, start as int),
        ensures
            final(self).wf(),
            final(self).chars == old(self).chars,
            step_matches(r, number_token(old(self).chars@, start as int, old(self).pos as int), final(self).pos as int),
    {
        let ghost c = self.chars@;
        let num_start = self.pos;
        let has_dot = self.scan_number();
        let end = self.pos;
        proof {
            lemma_num_end(c, num_start as int, false);
        }
        let span = self.span_from(start, start_line, start_col);
        let txt = slice_chars(&self.chars, num_start, end);
        if let Some(ch) = self.current() {
            if ch == 's' {
                self.advance();
                let v = decimal_saturated(&self.chars, num_start, end);
                return Ok(Token::new(TokenKind::TimeSec(Fixed { raw: v }), span));
            }
            if ch == 'm' && self.peek() == Some('s') {
                self.advance();
                self.advance();
                let v = decimal_saturated(&self.chars, num_start, end);
                return Ok(Token::new(TokenKind::TimeMs(Fixed { raw: v }), span));
            }
            if ch == 'f' && !has_dot {
                self.advance();
                return match digits_upto(&self.chars, num_start, end, u64::MAX as u128) {
                    Some(v) => Ok(Token::new(TokenKind::TimeFrames(v as u64), span)),
                    None => Err(VeacError::new(ErrorKind::InvalidTimeLiteral, quoted_message("invalid frame value `", &txt, "f`"), Some(span))),
                };
            }
        }
        if has_dot {
            let v = decimal_saturated(&self.chars, num_start, end);
            Ok(Token::new(TokenKind::FloatLit(Fixed { raw: v }), span))
        } else {
            match digits_upto(&self.chars, num_start, end, i64::MAX as u128) {
                Some(v) => Ok(Token::new(TokenKind::IntLit(v as i64), span)),
                None => Err(VeacError::new(ErrorKind::InvalidNumber, quoted_message("invalid integer literal `", &txt, "`"), Some(span))),
            }
        }
    }

    /// Move past the digits (and at most one `.` followed by a digit) of a
    /// number; tells whether a `.` was taken.
    fn scan_number(&mut self) -> (has_dot: bool)
        requires
            old(self).wf(),
        ensures
            final(self).wf(),
            final(self).chars == old(self).chars,
            num_end(old(self).chars@, old(self).pos as int, false) == (final(self).pos as int, has_dot),
    {
        let ghost c = self.chars@;
        let mut has_dot = false;
        loop
            invariant
                self.wf(),
                self.chars == old(self).chars,
                c == self.chars@,
                old(self).pos <= self.pos <= c.len(),
                num_end(c, self.pos as int, has_dot) == num_end(c, old(self).pos as int, false),
            decreases c.len() - self.pos,
        {
            let p = self.pos;
            if p >= self.chars.len() {
                assert(num_end(c, p as int, has_dot) == (p as int, has_dot));
                return has_dot;
            }
            let ch = self.chars[p];
            if is_digit_exec(ch) {
                self.advance();
            } else if ch == '.' && !has_dot && self.chars.len() - p > 1 && is_digit_exec(self.chars[p + 1]) {
                has_dot = true;
                self.advance();
            } else {
                assert(num_end(c, p as int, has_dot) == (p as int, has_dot));
                return has_dot;
            }
        }
    }

    /// Lex a negative number: `-` followed by digits.
    fn lex_negative_number(&mut self, start: usize, start_line: usize, start_col: usize) -> (r: Result<Token, VeacError>)
        requires
            old(self).wf(),
            start == old(self).pos,
            start + 1 < old(self).chars@.len(),
            old(self).chars@[start as int] == '-',
            is_digit(old(self).chars@[start + 1]),
            start_line == line_at(old(self).chars@, start as int),
            start_col == col_at(old(self).chars@, start as int),
        ensures
            final(self).wf(),
            final(self).chars == old(self).chars,
            step_matches(r, lex_at(old(self).chars@, start as int), final(self).pos as int),
    {
        self.advance();
        let tok = self.lex_number(start, start_line, start_col)?;
        let kind = match tok.kind {
            TokenKind::IntLit(n) => TokenKind::IntLit(-n),
            TokenKind::FloatLit(x) => TokenKind::FloatLit(Fixed { raw: -x.raw }),
            TokenKind::TimeSec(x) => TokenKind::TimeSec(Fixed { raw: -x.raw }),
            TokenKind::TimeMs(x) => TokenKind::TimeMs(Fixed { raw: -x.raw }),
            other => other,
        };
        Ok(Token::new(kind, tok.span))
    }
}

/// `before`, then the characters `txt`, then `after`.
fn quoted_message(before: &str, txt: &Vec<char>, after: &str) -> (s: String)
    ensures
        s@ == before@ + txt@ + after@,
{
    let mut s = crate::text::string_of(before);
    let t = string_from_chars(txt.as_slice());
    push_str(&mut s, t.as_str());
    push_str(&mut s, after);
    s
}

/// `pre` put in front of a run of tokens; an error stays as it is.
pub open spec fn prepend(
    pre: Seq<(KindView, Span)>,
    r: Result<Seq<(KindView, Span)>, ErrView>,
) -> Result<Seq<(KindView, Span)>, ErrView> {
    match r {
        Ok(rest) => Ok(pre + rest),
        Err(e) => Err(e),
    }
}

proof fn lemma_prepend_step(
    pre: Seq<(KindView, Span)>,
    t: (KindView, Span),
    r: Result<Seq<(KindView, Span)>, ErrView>,
)
    ensures
        prepend(pre, prepend(seq![t], r)) == prepend(pre.push(t), r),
{
    match r {
        Ok(rest) => {
            assert(pre + (seq![t] + rest) =~= pre.push(t) + rest);
        },
        Err(_) => {},
    }
}

/// The result of a lexing step agrees with its description.
pub open spec fn step_matches(r: Result<Token, VeacError>, s: LexStep, final_pos: int) -> bool {
    match (r, s) {
        (Ok(t), Ok((k, sp, q))) => t.kind@ == k && t.span == sp && final_pos == q,
        (Err(e), Err((ev, q))) => e@ == ev && final_pos == q,
        _ => false,
    }
}

proof fn lemma_number_token(c: Seq<char>, s: int, n0: int)
    requires
        0 <= s <= n0 < c.len(),
        is_digit(c[n0]),
    ensures
        number_token(c, s, n0) matches Ok((k, sp, q)) ==> n0 < q <= c.len(),
        number_token(c, s, n0) matches Err((e, q)) ==> n0 < q <= c.len(),
        number_token(c, s, n0) matches Ok((k, sp, q)) ==> match k {
            KindView::IntLit(n) => n >= 0,
            KindView::FloatLit(x) => x.raw >= 0,
            KindView::TimeSec(x) => x.raw >= 0,
            KindView::TimeMs(x) => x.raw >= 0,
            KindView::TimeFrames(_) => true,
            _ => false,
        },
{
    lemma_num_end(c, n0, false);
}

/// The lexer moves forward, and only the end-of-file token leaves it in place.
proof fn lemma_next_advances(c: Seq<char>, p: int)
    requires
        0 <= p <= c.len(),
    ensures
        next_at(c, p) matches Ok((k, sp, q)) ==> (p <= q <= c.len() && (!(k is Eof) ==> p < q)),
        next_at(c, p) matches Err((e, q)) ==> p <= q <= c.len(),
{
    lemma_trivia_end(c, p);
    let t = trivia_end(c, p);
    if t < c.len() {
        let ch = c[t];
        if ch == '"' {
            lemma_str_end(c, t + 1);
        } else if ch == '#' {
            lemma_hex_end(c, t + 1);
        } else if is_digit(ch) {
            lemma_number_token(c, t, t);
        } else if ch == '-' && t + 1 < c.len() && is_digit(c[t + 1]) {
            lemma_number_token(c, t, t + 1);
        } else if is_alpha(ch) || ch == '_' {
            lemma_word_end(c, t);
            lemma_word_end(c, t + 1);
        }
    }
}

/// Lexing that succeeds ends with exactly one end-of-file token, and with
/// nothing after it.
pub proof fn lemma_tokens_end_with_eof(c: Seq<char>, p: int)
    requires
        0 <= p <= c.len(),
        tokens_from(c, p) is Ok,
    ensures
        tokens_from(c, p)->Ok_0.len() > 0,
        tokens_from(c, p)->Ok_0.last().0 is Eof,
        forall|j: int| 0 <= j < tokens_from(c, p)->Ok_0.len() - 1
            ==> !(#[trigger] tokens_from(c, p)->Ok_0[j].0 is Eof),
    decreases c.len() - p,
{
    lemma_next_advances(c, p);
    match next_at(c, p) {
        Ok((k, sp, q)) => {
            if !(k is Eof) {
                lemma_tokens_end_with_eof(c, q);
                let rest = tokens_from(c, q)->Ok_0;
                let all = tokens_from(c, p)->Ok_0;
                assert(all =~= seq![(k, sp)] + rest);
                assert forall|j: int| 0 <= j < all.len() - 1 implies !(#[trigger] all[j].0 is Eof) by {
                    if j > 0 {
                        assert(all[j] == rest[j - 1]);
                    }
                }
            }
        },
        Err(_) => {},
    }
}

/// A span that does not end before it starts.
pub open spec fn span_ok(sp: Span) -> bool {
    sp.start <= sp.end
}

/// Each span that lexing one token gives, of a token or of an error, is
/// in order.
proof fn lemma_lex_span(c: Seq<char>, p: int)
    requires
        0 <= p <= c.len() <= usize::MAX,
    ensures
        lex_at(c, p) matches Ok((k, sp, q)) ==> span_ok(sp),
        lex_at(c, p) matches Err((e, q)) ==> e.span matches Some(sp) && span_ok(sp),
{
    if p < c.len() {
        let ch = c[p];
        if ch == '"' {
            lemma_str_end(c, p + 1);
        } else if ch == '#' {
            lemma_hex_end(c, p + 1);
        } else if is_digit(ch) {
            lemma_num_end(c, p, false);
        } else if ch == '-' && p + 1 < c.len() && is_digit(c[p + 1]) {
            lemma_num_end(c, p + 1, false);
        } else if is_alpha(ch) || ch == '_' {
            lemma_word_end(c, p);
        }
    }
}

/// Every token that lexing gives has its span in order, and so has the
/// span of the error it stops at.
pub proof fn lemma_token_spans(c: Seq<char>, p: int)
    requires
        0 <= p <= c.len() <= usize::MAX,
    ensures
        tokens_from(c, p) matches Ok(ts) ==> forall|i: int| 0 <= i < ts.len() ==> span_ok(#[trigger] ts[i].1),
        tokens_from(c, p) matches Err(e) ==> e.span matches Some(sp) && span_ok(sp),
    decreases c.len() - p,
{
    lemma_trivia_end(c, p);
    lemma_lex_span(c, trivia_end(c, p));
    lemma_next_advances(c, p);
    match next_at(c, p) {
        Ok((k, sp, q)) => {
            if !(k is Eof) && p < q <= c.len() {
                lemma_token_spans(c, q);
                match tokens_from(c, q) {
                    Ok(rest) => {
                        let all = seq![(k, sp)] + rest;
                        assert forall|i: int| 0 <= i < all.len() implies span_ok(#[trigger] all[i].1) by {
                            if i > 0 {
                                assert(all[i] == rest[i - 1]);
                            }
                        }
                    },
                    Err(_) => {},
                }
            }
        },
        Err(_) => {},
    }
}

} // verus!
