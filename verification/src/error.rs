//! Compilation errors and their rustc-style rendering.
use vstd::prelude::*;
use crate::text::{chars_of, nat_text, push_nat_text, push_str, string_from_chars, string_push};
use crate::token::Span;

verus! {

/// All error kinds of VEAC compilation.
#[derive(Debug, Clone, Copy, PartialEq, Eq, Structural)]
pub enum ErrorKind {
    // Lexer errors
    UnexpectedChar,
    UnterminatedString,
    InvalidNumber,
    InvalidTimeLiteral,
    InvalidColor,
    // Parser errors
    UnexpectedToken,
    ExpectedToken,
    ExpectedBlock,
    ExpectedExpression,
    // Semantic errors
    UndefinedAsset,
    UndefinedVariable,
    DuplicateDefinition,
    TypeMismatch,
    InvalidTimeRange,
    InvalidValue,
    AssetFileNotFound,
    NoTimeline,
    NoProject,
}

/// The name of an error kind as it appears in rendered errors.
pub open spec fn kind_name(k: ErrorKind) -> Seq<char> {
    match k {
        ErrorKind::UnexpectedChar => "UnexpectedChar"@,
        ErrorKind::UnterminatedString => "UnterminatedString"@,
        ErrorKind::InvalidNumber => "InvalidNumber"@,
        ErrorKind::InvalidTimeLiteral => "InvalidTimeLiteral"@,
        ErrorKind::InvalidColor => "InvalidColor"@,
        ErrorKind::UnexpectedToken => "UnexpectedToken"@,
        ErrorKind::ExpectedToken => "ExpectedToken"@,
        ErrorKind::ExpectedBlock => "ExpectedBlock"@,
        ErrorKind::ExpectedExpression => "ExpectedExpression"@,
        ErrorKind::UndefinedAsset => "UndefinedAsset"@,
        ErrorKind::UndefinedVariable => "UndefinedVariable"@,
        ErrorKind::DuplicateDefinition => "DuplicateDefinition"@,
        ErrorKind::TypeMismatch => "TypeMismatch"@,
        ErrorKind::InvalidTimeRange => "InvalidTimeRange"@,
        ErrorKind::InvalidValue => "InvalidValue"@,
        ErrorKind::AssetFileNotFound => "AssetFileNotFound"@,
        ErrorKind::NoTimeline => "NoTimeline"@,
        ErrorKind::NoProject => "NoProject"@,
    }
}

/// A compilation error: its kind, message, optional location and hint.
#[derive(Debug, Clone)]
pub struct VeacError {
    pub kind: ErrorKind,
    pub message: String,
    pub span: Option<Span>,
    pub hint: Option<String>,
}

/// An error with its text held as character sequences.
pub struct ErrView {
    pub kind: ErrorKind,
    pub message: Seq<char>,
    pub span: Option<Span>,
    pub hint: Option<Seq<char>>,
}

impl View for VeacError {
    type V = ErrView;

    open spec fn view(&self) -> ErrView {
        ErrView {
            kind: self.kind,
            message: self.message@,
            span: self.span,
            hint: match self.hint {
                Some(h) => Some(h@),
                None => None,
            },
        }
    }
}

/// The error view with the given parts.
pub open spec fn err(kind: ErrorKind, message: Seq<char>, span: Option<Span>, hint: Option<Seq<char>>) -> ErrView {
    ErrView { kind, message, span, hint }
}

/// `n` copies of `c`.
pub open spec fn repeat(c: char, n: nat) -> Seq<char> {
    Seq::new(n, |_i: int| c)
}

/// The index of the first `'\n'` in `s`, or its length when there is none.
pub open spec fn newline_index(s: Seq<char>) -> nat
    decreases s.len(),
{
    if s.len() == 0 {
        0
    } else if s[0] == '\n' {
        0
    } else {
        1 + newline_index(s.drop_first())
    }
}

/// The lines of `s` as `str::lines` yields them: split at each `'\n'`, a
/// `'\r'` right before a `'\n'` removed, and no empty line after a final
/// `'\n'`.
pub open spec fn lines_of(s: Seq<char>) -> Seq<Seq<char>>
    decreases s.len(),
{
    if s.len() == 0 {
        Seq::empty()
    } else {
        let i = newline_index(s);
        if i < s.len() {
            let raw = s.take(i as int);
            let line = if raw.len() > 0 && raw.last() == '\r' { raw.drop_last() } else { raw };
            seq![line] + lines_of(s.skip(i as int + 1))
        } else {
            seq![s]
        }
    }
}

/// The location part of a rendered error: the `-->` line and, when the
/// span's line exists in the source, that line with the span underlined.
pub open spec fn location_text(sp: Span, source: Seq<char>, filename: Seq<char>) -> Seq<char> {
    let loc = "  --> "@ + filename + ":"@ + nat_text(sp.line as nat) + ":"@ + nat_text(sp.col as nat) + "\n"@;
    let lines = lines_of(source);
    if sp.line > 0 && sp.line <= lines.len() {
        loc + excerpt_text(sp, lines[sp.line - 1])
    } else {
        loc
    }
}

/// The source line of a span with its columns underlined.
pub open spec fn excerpt_text(sp: Span, line: Seq<char>) -> Seq<char> {
    let line_num = nat_text(sp.line as nat);
    let padding = repeat(' ', line_num.len());
    let under_start = if sp.col > 0 { sp.col - 1 } else { 0 };
    let under_len = if sp.end - sp.start >= 1 { sp.end - sp.start } else { 1 };
    padding + " |\n"@ + line_num + " | "@ + line + "\n"@ + padding + " | "@
        + repeat(' ', under_start as nat) + repeat('^', under_len as nat) + "\n"@
}

/// The rendering of an error against its source text and file name.
pub open spec fn format_error(e: ErrView, source: Seq<char>, filename: Seq<char>) -> Seq<char> {
    let header = "error["@ + kind_name(e.kind) + "]: "@ + e.message + "\n"@;
    let located = match e.span {
        Some(sp) => location_text(sp, source, filename),
        None => Seq::empty(),
    };
    let hinted = match e.hint {
        Some(h) => "  = help: "@ + h + "\n"@,
        None => Seq::empty(),
    };
    header + located + hinted
}

/// Appends `n` copies of `c` to `out`.
pub fn push_repeat(out: &mut String, c: char, n: usize)
    ensures
        final(out)@ == old(out)@ + repeat(c, n as nat),
{
    let mut i: usize = 0;
    while i < n
        invariant
            i <= n,
            out@ == old(out)@ + repeat(c, i as nat),
        decreases n - i,
    {
        string_push(out, c);
        i = i + 1;
        assert(out@ =~= old(out)@ + repeat(c, i as nat));
    }
}

proof fn lemma_newline_index(s: Seq<char>, p: int)
    requires
        0 <= p <= s.len(),
        forall|k: int| 0 <= k < p ==> s[k] != '\n',
        p == s.len() || s[p] == '\n',
    ensures
        newline_index(s) == p,
    decreases s.len(),
{
    if s.len() > 0 && s[0] != '\n' {
        lemma_newline_index(s.drop_first(), p - 1);
    }
}

/// The line that starts at `p` ends at `i`.
proof fn lemma_lines_step(s: Seq<char>, p: int, i: int)
    requires
        0 <= p < s.len(),
        p <= i <= s.len(),
        forall|q: int| p <= q < i ==> s[q] != '\n',
        i == s.len() || s[i] == '\n',
    ensures
        ({
            let raw = s.subrange(p, i);
            let line = if i < s.len() && raw.len() > 0 && raw.last() == '\r' { raw.drop_last() } else { raw };
            lines_of(s.skip(p)) == seq![line] + (if i < s.len() { lines_of(s.skip(i + 1)) } else { Seq::empty() })
        }),
{
    let rest = s.skip(p);
    lemma_newline_index(rest, i - p);
    assert(rest.take(i - p) =~= s.subrange(p, i));
    if i < s.len() {
        assert(rest.skip(i - p + 1) =~= s.skip(i + 1));
    } else {
        assert(rest =~= s.subrange(p, i));
    }
}

/// The `k`-th line (0-based) of `s`, as `lines_of` defines them.
pub fn nth_line(s: &Vec<char>, k: usize) -> (r: Option<Vec<char>>)
    ensures
        k < lines_of(s@).len() ==> r is Some && r->0@ == lines_of(s@)[k as int],
        k >= lines_of(s@).len() ==> r is None,
{
    let mut p: usize = 0;
    let mut j: usize = 0;
    let ghost mut done: Seq<Seq<char>> = Seq::empty();
    assert(s@.skip(0) =~= s@);
    while p < s.len()
        invariant
            p <= s@.len(),
            j <= k,
            j == done.len(),
            lines_of(s@) == done + lines_of(s@.skip(p as int)),
        decreases s@.len() - p,
    {
        let mut i = p;
        while i < s.len() && s[i] != '\n'
            invariant
                p <= i <= s@.len(),
                forall|q: int| p <= q < i ==> s@[q] != '\n',
            decreases s@.len() - i,
        {
            i = i + 1;
        }
        proof {
            lemma_lines_step(s@, p as int, i as int);
        }
        let mut line: Vec<char> = Vec::new();
        let mut q = p;
        while q < i
            invariant
                p <= q <= i,
                i <= s@.len(),
                line@ =~= s@.subrange(p as int, q as int),
            decreases i - q,
        {
            line.push(s[q]);
            q = q + 1;
        }
        if i < s.len() && line.len() > 0 && line[line.len() - 1] == '\r' {
            line.pop();
        }
        if j == k {
            assert(lines_of(s@)[k as int] == (done + lines_of(s@.skip(p as int)))[j as int]);
            return Some(line);
        }
        proof {
            done = done.push(line@);
        }
        if i < s.len() {
            p = i + 1;
        } else {
            assert(s@.skip(i as int) =~= Seq::<char>::empty());
            p = i;
        }
        j = j + 1;
        assert(lines_of(s@) =~= done + lines_of(s@.skip(p as int)));
    }
    proof {
        assert(s@.skip(p as int) =~= Seq::<char>::empty());
        assert(lines_of(s@) =~= done);
    }
    None
}

impl VeacError {
    pub fn new(kind: ErrorKind, message: String, span: Option<Span>) -> (e: Self)
        ensures
            e@ == err(kind, message@, span, None),
    {
        VeacError { kind, message, span, hint: None }
    }

    /// The same error with `hint` attached.
    pub fn with_hint(self, hint: String) -> (e: Self)
        ensures
            e@ == err(self.kind, self@.message, self.span, Some(hint@)),
    {
        let mut e = self;
        e.hint = Some(hint);
        e
    }

    /// Render the error with source context (rustc-style).
    pub fn format(&self, source: &str, filename: &str) -> (out: String)
        requires
            self.span matches Some(sp) ==> (sp.line > 0 && sp.line <= lines_of(source@).len()
                ==> sp.end >= sp.start),
        ensures
            out@ == format_error(self@, source@, filename@),
    {
        let mut out = String::new();
        push_str(&mut out, "error[");
        push_kind_name(&mut out, self.kind);
        push_str(&mut out, "]: ");
        push_str(&mut out, self.message.as_str());
        push_str(&mut out, "\n");
        if let Some(span) = &self.span {
            push_location(&mut out, *span, source, filename);
        }
        if let Some(hint) = &self.hint {
            push_str(&mut out, "  = help: ");
            push_str(&mut out, hint.as_str());
            push_str(&mut out, "\n");
        }
        assert(out@ =~= format_error(self@, source@, filename@));
        out
    }
}

/// Appends the location part of a rendered error.
fn push_location(out: &mut String, span: Span, source: &str, filename: &str)
    requires
        span.line > 0 && span.line <= lines_of(source@).len() ==> span.end >= span.start,
    ensures
        final(out)@ == old(out)@ + location_text(span, source@, filename@),
{
    push_str(out, "  --> ");
    push_str(out, filename);
    push_str(out, ":");
    push_nat_text(out, span.line as u128);
    push_str(out, ":");
    push_nat_text(out, span.col as u128);
    push_str(out, "\n");
    let chars = chars_of(source);
    if span.line > 0 {
        match nth_line(&chars, span.line - 1) {
            Some(line) => {
                push_excerpt(out, span, &line);
            },
            None => {},
        }
    }
    assert(final(out)@ =~= old(out)@ + location_text(span, source@, filename@));
}

/// Appends the underlined source line of a span.
fn push_excerpt(out: &mut String, span: Span, line: &Vec<char>)
    requires
        span.end >= span.start,
        span.line > 0,
    ensures
        final(out)@ == old(out)@ + excerpt_text(span, line@),
{
    let mut line_num = String::new();
    push_nat_text(&mut line_num, span.line as u128);
    let mut padding = String::new();
    let width = line_num_width(span.line);
    push_repeat(&mut padding, ' ', width);
    push_str(out, padding.as_str());
    push_str(out, " |\n");
    push_str(out, line_num.as_str());
    push_str(out, " | ");
    let ls = string_from_chars(line.as_slice());
    push_str(out, ls.as_str());
    push_str(out, "\n");
    push_str(out, padding.as_str());
    push_str(out, " | ");
    let under_start = if span.col > 0 { span.col - 1 } else { 0 };
    let diff = span.end - span.start;
    let under_len = if diff >= 1 { diff } else { 1 };
    push_repeat(out, ' ', under_start);
    push_repeat(out, '^', under_len);
    push_str(out, "\n");
    assert(final(out)@ =~= old(out)@ + excerpt_text(span, line@));
}

/// The number of decimal digits of `n`.
fn line_num_width(n: usize) -> (w: usize)
    ensures
        w == nat_text(n as nat).len(),
    decreases n,
{
    if n < 10 {
        1
    } else {
        let w = line_num_width(n / 10);
        proof {
            assert(nat_text(n as nat) == nat_text((n / 10) as nat).push(crate::text::digit_char((n % 10) as int)));
        }
        assert(w < usize::MAX) by {
            lemma_text_len_bound((n / 10) as nat);
        }
        w + 1
    }
}

proof fn lemma_text_len_bound(n: nat)
    ensures
        nat_text(n).len() <= n + 1,
    decreases n,
{
    if n >= 10 {
        lemma_text_len_bound(n / 10);
    }
}

/// Appends the name of `k` to `out`.
fn push_kind_name(out: &mut String, k: ErrorKind)
    ensures
        final(out)@ == old(out)@ + kind_name(k),
{
    let s = match k {
        ErrorKind::UnexpectedChar => "UnexpectedChar",
        ErrorKind::UnterminatedString => "UnterminatedString",
        ErrorKind::InvalidNumber => "InvalidNumber",
        ErrorKind::InvalidTimeLiteral => "InvalidTimeLiteral",
        ErrorKind::InvalidColor => "InvalidColor",
        ErrorKind::UnexpectedToken => "UnexpectedToken",
        ErrorKind::ExpectedToken => "ExpectedToken",
        ErrorKind::ExpectedBlock => "ExpectedBlock",
        ErrorKind::ExpectedExpression => "ExpectedExpression",
        ErrorKind::UndefinedAsset => "UndefinedAsset",
        ErrorKind::UndefinedVariable => "UndefinedVariable",
        ErrorKind::DuplicateDefinition => "DuplicateDefinition",
        ErrorKind::TypeMismatch => "TypeMismatch",
        ErrorKind::InvalidTimeRange => "InvalidTimeRange",
        ErrorKind::InvalidValue => "InvalidValue",
        ErrorKind::AssetFileNotFound => "AssetFileNotFound",
        ErrorKind::NoTimeline => "NoTimeline",
        ErrorKind::NoProject => "NoProject",
    };
    push_str(out, s);
}

} // verus!
