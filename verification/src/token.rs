//! Tokens of the VEAC language and their source locations.
use vstd::prelude::*;
use crate::fixed::Fixed;
use crate::text::{int_text, nat_text, push_nat_text, push_str, string_push};

verus! {

/// Source location for error reporting: character offsets `start..end` and
/// the 1-based line and column of `start`.
#[derive(Debug, Clone, Copy, PartialEq, Eq, Structural)]
pub struct Span {
    pub start: usize,
    pub end: usize,
    pub line: usize,
    pub col: usize,
}

impl Span {
    pub fn new(start: usize, end: usize, line: usize, col: usize) -> (s: Self)
        ensures
            s == (Span { start, end, line, col }),
    {
        Span { start, end, line, col }
    }
}

/// All token types in the VEAC language.
#[derive(Debug, Clone, PartialEq)]
pub enum TokenKind {
    // Keywords
    Project,
    Asset,
    Timeline,
    Track,
    Clip,
    Text,
    Transition,
    Let,
    Include,
    // Asset type functions
    Video,
    Audio,
    Image,
    // Identifiers and literals
    Ident(String),
    StringLit(String),
    IntLit(i64),
    FloatLit(Fixed),
    BoolLit(bool),
    // Time literals: value stored, suffix determines kind
    TimeSec(Fixed),
    TimeMs(Fixed),
    TimeFrames(u64),
    Smpte(String),
    // Color literal (hex digits without the `#`)
    ColorLit(String),
    // Punctuation
    LBrace,
    RBrace,
    LParen,
    RParen,
    Equals,
    Comma,
    Dot,
    // Special
    Eof,
}

/// A token kind with its text held as character sequences.
pub enum KindView {
    Project,
    Asset,
    Timeline,
    Track,
    Clip,
    Text,
    Transition,
    Let,
    Include,
    Video,
    Audio,
    Image,
    Ident(Seq<char>),
    StringLit(Seq<char>),
    IntLit(i64),
    FloatLit(Fixed),
    BoolLit(bool),
    TimeSec(Fixed),
    TimeMs(Fixed),
    TimeFrames(u64),
    Smpte(Seq<char>),
    ColorLit(Seq<char>),
    LBrace,
    RBrace,
    LParen,
    RParen,
    Equals,
    Comma,
    Dot,
    Eof,
}

impl View for TokenKind {
    type V = KindView;

    open spec fn view(&self) -> KindView {
        match self {
            TokenKind::Project => KindView::Project,
            TokenKind::Asset => KindView::Asset,
            TokenKind::Timeline => KindView::Timeline,
            TokenKind::Track => KindView::Track,
            TokenKind::Clip => KindView::Clip,
            TokenKind::Text => KindView::Text,
            TokenKind::Transition => KindView::Transition,
            TokenKind::Let => KindView::Let,
            TokenKind::Include => KindView::Include,
            TokenKind::Video => KindView::Video,
            TokenKind::Audio => KindView::Audio,
            TokenKind::Image => KindView::Image,
            TokenKind::Ident(s) => KindView::Ident(s@),
            TokenKind::StringLit(s) => KindView::StringLit(s@),
            TokenKind::IntLit(n) => KindView::IntLit(*n),
            TokenKind::FloatLit(x) => KindView::FloatLit(*x),
            TokenKind::BoolLit(b) => KindView::BoolLit(*b),
            TokenKind::TimeSec(x) => KindView::TimeSec(*x),
            TokenKind::TimeMs(x) => KindView::TimeMs(*x),
            TokenKind::TimeFrames(n) => KindView::TimeFrames(*n),
            TokenKind::Smpte(s) => KindView::Smpte(s@),
            TokenKind::ColorLit(s) => KindView::ColorLit(s@),
            TokenKind::LBrace => KindView::LBrace,
            TokenKind::RBrace => KindView::RBrace,
            TokenKind::LParen => KindView::LParen,
            TokenKind::RParen => KindView::RParen,
            TokenKind::Equals => KindView::Equals,
            TokenKind::Comma => KindView::Comma,
            TokenKind::Dot => KindView::Dot,
            TokenKind::Eof => KindView::Eof,
        }
    }
}

/// How a token kind reads in messages ("identifier `x`", "integer 3", "{", ...).
pub open spec fn describe(k: KindView) -> Seq<char> {
    match k {
        KindView::Project => "project"@,
        KindView::Asset => "asset"@,
        KindView::Timeline => "timeline"@,
        KindView::Track => "track"@,
        KindView::Clip => "clip"@,
        KindView::Text => "text"@,
        KindView::Transition => "transition"@,
        KindView::Let => "let"@,
        KindView::Include => "include"@,
        KindView::Video => "video"@,
        KindView::Audio => "audio"@,
        KindView::Image => "image"@,
        KindView::Ident(s) => "identifier `"@ + s + "`"@,
        KindView::StringLit(s) => "string \""@ + s + "\""@,
        KindView::IntLit(n) => "integer "@ + int_text(n as int),
        KindView::FloatLit(x) => "float "@ + x.spec_text(),
        KindView::BoolLit(b) => "bool "@ + (if b { "true"@ } else { "false"@ }),
        KindView::TimeSec(x) => x.spec_text() + "s"@,
        KindView::TimeMs(x) => x.spec_text() + "ms"@,
        KindView::TimeFrames(n) => nat_text(n as nat) + "f"@,
        KindView::Smpte(s) => "SMPTE \""@ + s + "\""@,
        KindView::ColorLit(s) => "color #"@ + s,
        KindView::LBrace => "{"@,
        KindView::RBrace => "}"@,
        KindView::LParen => "("@,
        KindView::RParen => ")"@,
        KindView::Equals => "="@,
        KindView::Comma => ","@,
        KindView::Dot => "."@,
        KindView::Eof => "end of file"@,
    }
}

/// Appends the decimal text of `n` to `out`.
pub fn push_int_text(out: &mut String, n: i64)
    ensures
        final(out)@ == old(out)@ + int_text(n as int),
{
    if n < 0 {
        string_push(out, '-');
        let m: u128 = ((-((n as i128) + 1)) as u128) + 1;
        push_nat_text(out, m);
    } else {
        push_nat_text(out, n as u128);
    }
    assert(final(out)@ =~= old(out)@ + int_text(n as int));
}

impl TokenKind {
    /// The same kind, with its text copied.
    pub fn copy(&self) -> (r: TokenKind)
        ensures
            r@ == self@,
    {
        match self {
            TokenKind::Ident(s) => TokenKind::Ident(s.clone()),
            TokenKind::StringLit(s) => TokenKind::StringLit(s.clone()),
            TokenKind::Smpte(s) => TokenKind::Smpte(s.clone()),
            TokenKind::ColorLit(s) => TokenKind::ColorLit(s.clone()),
            TokenKind::IntLit(n) => TokenKind::IntLit(*n),
            TokenKind::FloatLit(x) => TokenKind::FloatLit(*x),
            TokenKind::BoolLit(b) => TokenKind::BoolLit(*b),
            TokenKind::TimeSec(x) => TokenKind::TimeSec(*x),
            TokenKind::TimeMs(x) => TokenKind::TimeMs(*x),
            TokenKind::TimeFrames(n) => TokenKind::TimeFrames(*n),
            TokenKind::Project => TokenKind::Project,
            TokenKind::Asset => TokenKind::Asset,
            TokenKind::Timeline => TokenKind::Timeline,
            TokenKind::Track => TokenKind::Track,
            TokenKind::Clip => TokenKind::Clip,
            TokenKind::Text => TokenKind::Text,
            TokenKind::Transition => TokenKind::Transition,
            TokenKind::Let => TokenKind::Let,
            TokenKind::Include => TokenKind::Include,
            TokenKind::Video => TokenKind::Video,
            TokenKind::Audio => TokenKind::Audio,
            TokenKind::Image => TokenKind::Image,
            TokenKind::LBrace => TokenKind::LBrace,
            TokenKind::RBrace => TokenKind::RBrace,
            TokenKind::LParen => TokenKind::LParen,
            TokenKind::RParen => TokenKind::RParen,
            TokenKind::Equals => TokenKind::Equals,
            TokenKind::Comma => TokenKind::Comma,
            TokenKind::Dot => TokenKind::Dot,
            TokenKind::Eof => TokenKind::Eof,
        }
    }

    /// Appends how this kind reads in messages to `out`.
    pub fn push_description(&self, out: &mut String)
        ensures
            final(out)@ == old(out)@ + describe(self@),
    {
        match self {
            TokenKind::Project => push_str(out, "project"),
            TokenKind::Asset => push_str(out, "asset"),
            TokenKind::Timeline => push_str(out, "timeline"),
            TokenKind::Track => push_str(out, "track"),
            TokenKind::Clip => push_str(out, "clip"),
            TokenKind::Text => push_str(out, "text"),
            TokenKind::Transition => push_str(out, "transition"),
            TokenKind::Let => push_str(out, "let"),
            TokenKind::Include => push_str(out, "include"),
            TokenKind::Video => push_str(out, "video"),
            TokenKind::Audio => push_str(out, "audio"),
            TokenKind::Image => push_str(out, "image"),
            TokenKind::Ident(s) => {
                push_str(out, "identifier `");
                push_str(out, s.as_str());
                push_str(out, "`");
            },
            TokenKind::StringLit(s) => {
                push_str(out, "string \"");
                push_str(out, s.as_str());
                push_str(out, "\"");
            },
            TokenKind::IntLit(n) => {
                push_str(out, "integer ");
                push_int_text(out, *n);
            },
            TokenKind::FloatLit(x) => {
                push_str(out, "float ");
                let t = x.text();
                push_str(out, t.as_str());
            },
            TokenKind::BoolLit(b) => {
                push_str(out, "bool ");
                if *b {
                    push_str(out, "true");
                } else {
                    push_str(out, "false");
                }
            },
            TokenKind::TimeSec(x) => {
                let t = x.text();
                push_str(out, t.as_str());
                push_str(out, "s");
            },
            TokenKind::TimeMs(x) => {
                let t = x.text();
                push_str(out, t.as_str());
                push_str(out, "ms");
            },
            TokenKind::TimeFrames(n) => {
                push_nat_text(out, *n as u128);
                push_str(out, "f");
            },
            TokenKind::Smpte(s) => {
                push_str(out, "SMPTE \"");
                push_str(out, s.as_str());
                push_str(out, "\"");
            },
            TokenKind::ColorLit(s) => {
                push_str(out, "color #");
                push_str(out, s.as_str());
            },
            TokenKind::LBrace => push_str(out, "{"),
            TokenKind::RBrace => push_str(out, "}"),
            TokenKind::LParen => push_str(out, "("),
            TokenKind::RParen => push_str(out, ")"),
            TokenKind::Equals => push_str(out, "="),
            TokenKind::Comma => push_str(out, ","),
            TokenKind::Dot => push_str(out, "."),
            TokenKind::Eof => push_str(out, "end of file"),
        }
        assert(final(out)@ =~= old(out)@ + describe(self@));
    }

    /// How this kind reads in messages ("identifier `x`", "{", "end of file").
    pub fn describe(&self) -> (s: String)
        ensures
            s@ == describe(self@),
    {
        let mut s = String::new();
        self.push_description(&mut s);
        assert(s@ =~= describe(self@));
        s
    }
}

/// A token: its kind and where it stands in the source.
#[derive(Debug, Clone, PartialEq)]
pub struct Token {
    pub kind: TokenKind,
    pub span: Span,
}

impl View for Token {
    type V = (KindView, Span);

    open spec fn view(&self) -> (KindView, Span) {
        (self.kind@, self.span)
    }
}

impl Token {
    pub fn new(kind: TokenKind, span: Span) -> (t: Self)
        ensures
            t.kind == kind,
            t.span == span,
    {
        Token { kind, span }
    }

    /// The same token, with its text copied.
    pub fn copy(&self) -> (t: Token)
        ensures
            t@ == self@,
    {
        Token { kind: self.kind.copy(), span: self.span }
    }
}

} // verus!
