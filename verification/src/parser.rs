//! Recursive descent parser for VEAC, proved to follow the grammar of
//! `parser_spec`.
use vstd::prelude::*;
use crate::ast::{
    attrs_view, AssetDecl, AssetKind, AssetView, AttrView, Attribute, BlockView, ClipDecl,
    Expression, FreezeDecl, GapDecl, ImageOverlayDecl, IncludeDecl, ItemView, LetDecl, LetView,
    OutputDecl, PipDecl, Program, ProgramView, ProjectDecl, SubtitleDecl, TextOverlayDecl,
    TimelineDecl, TimelineView, TrackDecl, TrackItem, TrackKind, TrackView, TransitionDecl,
};
use crate::error::{err, ErrView, ErrorKind, VeacError};
use crate::lexer::{lemma_tokens_end_with_eof, token_views, tokenize_spec};
use crate::parser_spec::{
    adv, attr_stop, empty_program, eof_at, kind_at, lemma_pre_seq_empty, lemma_pre_seq_step,
    p_asset, p_attr, p_attrs, p_block, p_clip, p_decl, p_decls, p_expect, p_expr, p_freeze,
    p_gap, p_ident, p_image, p_include, p_item, p_items, p_let, p_output, p_pip, p_project,
    p_string, p_subtitle, p_text, p_timeline, p_track, p_tracks, p_transition, parse_spec,
    pre_seq, reaches_eof, span_at, step_of, variant, PStep, Toks,
};
use crate::text::{push_str, string_eq_str, string_of};
use crate::token::{describe, KindView, Token, TokenKind};

verus! {

/// Recursive descent parser for VEAC.
pub struct Parser {
    pub tokens: Vec<Token>,
    pub pos: usize,
}

/// The step that a parsed run of attributes and the position after it make.
pub open spec fn attrs_step(r: Result<Vec<Attribute>, VeacError>, pos: int) -> PStep<Seq<AttrView>> {
    match r {
        Ok(v) => Ok((attrs_view(v@), pos)),
        Err(e) => Err((e@, pos)),
    }
}

/// The views of a run of track items.
pub open spec fn items_view(v: Seq<TrackItem>) -> Seq<ItemView> {
    v.map_values(|i: TrackItem| i@)
}

/// The views of a run of tracks.
pub open spec fn tracks_view(v: Seq<TrackDecl>) -> Seq<TrackView> {
    v.map_values(|t: TrackDecl| t@)
}

/// The tokens of a source text that lexes can be parsed from their start:
/// they end with an end-of-file token.
pub proof fn lemma_tokens_parseable(c: Seq<char>)
    requires
        tokenize_spec(c) is Ok,
    ensures
        reaches_eof(tokenize_spec(c)->Ok_0, 0),
{
    lemma_tokens_end_with_eof(c, 0);
    let ts = tokenize_spec(c)->Ok_0;
    assert(eof_at(ts, ts.len() - 1));
}

/// The kind of `k` as a number, regardless of the value it carries.
fn kind_index(k: &TokenKind) -> (n: u8)
    ensures
        n as int == variant(k@),
{
    match k {
        TokenKind::Project => 0,
        TokenKind::Asset => 1,
        TokenKind::Timeline => 2,
        TokenKind::Track => 3,
        TokenKind::Clip => 4,
        TokenKind::Text => 5,
        TokenKind::Transition => 6,
        TokenKind::Let => 7,
        TokenKind::Include => 8,
        TokenKind::Video => 9,
        TokenKind::Audio => 10,
        TokenKind::Image => 11,
        TokenKind::Ident(_) => 12,
        TokenKind::StringLit(_) => 13,
        TokenKind::IntLit(_) => 14,
        TokenKind::FloatLit(_) => 15,
        TokenKind::BoolLit(_) => 16,
        TokenKind::TimeSec(_) => 17,
        TokenKind::TimeMs(_) => 18,
        TokenKind::TimeFrames(_) => 19,
        TokenKind::Smpte(_) => 20,
        TokenKind::ColorLit(_) => 21,
        TokenKind::LBrace => 22,
        TokenKind::RBrace => 23,
        TokenKind::LParen => 24,
        TokenKind::RParen => 25,
        TokenKind::Equals => 26,
        TokenKind::Comma => 27,
        TokenKind::Dot => 28,
        TokenKind::Eof => 29,
    }
}

/// Passing a token keeps an end-of-file token ahead.
pub proof fn lemma_adv(ts: Toks, i: int)
    requires
        reaches_eof(ts, i),
    ensures
        reaches_eof(ts, adv(ts, i)),
        i <= adv(ts, i) < ts.len(),
        0 <= i ==> 0 <= adv(ts, i),
        !(kind_at(ts, i) is Eof) ==> adv(ts, i) == i + 1,
{
    let k = choose|k: int| i <= k < ts.len() && #[trigger] eof_at(ts, k);
    if !(kind_at(ts, i) is Eof) {
        assert(i != k);
    }
    assert(eof_at(ts, k));
}

impl Parser {
    /// The tokens as the grammar sees them.
    pub open spec fn toks(&self) -> Toks {
        token_views(self.tokens@)
    }

    /// An end-of-file token stands at the current position or after it.
    pub open spec fn wf(&self) -> bool {
        reaches_eof(self.toks(), self.pos as int)
    }

    pub fn new(tokens: Vec<Token>) -> (p: Self)
        ensures
            p.tokens@ == tokens@,
            p.pos == 0,
    {
        Parser { tokens, pos: 0 }
    }

    /// The token at the current position.
    pub fn current(&self) -> (t: &Token)
        requires
            self.wf(),
        ensures
            t@ == self.toks()[self.pos as int],
    {
        proof {
            lemma_adv(self.toks(), self.pos as int);
        }
        &self.tokens[self.pos]
    }

    /// Whether the current token ends the file.
    pub fn is_at_end(&self) -> (b: bool)
        requires
            self.wf(),
        ensures
            b == (kind_at(self.toks(), self.pos as int) is Eof),
    {
        matches!(self.current().kind, TokenKind::Eof)
    }

    /// Moves past the current token, unless it ends the file.
    pub fn advance(&mut self)
        requires
            old(self).wf(),
        ensures
            final(self).tokens@ == old(self).tokens@,
            final(self).pos == adv(old(self).toks(), old(self).pos as int),
            final(self).wf(),
            old(self).pos <= final(self).pos,
            !(kind_at(old(self).toks(), old(self).pos as int) is Eof) ==> final(self).pos == old(self).pos + 1,
    {
        proof {
            lemma_adv(self.toks(), self.pos as int);
        }
        if !self.is_at_end() {
            let n: usize = self.tokens.len();
            assert(self.toks().len() == n);
            self.pos = self.pos + 1;
        }
    }

    /// The error of kind `kind` with `message`, located at the current token.
    fn error_here(&self, kind: ErrorKind, message: String) -> (e: VeacError)
        requires
            self.wf(),
        ensures
            e@ == err(kind, message@, Some(span_at(self.toks(), self.pos as int)), None),
    {
        VeacError::new(kind, message, Some(self.current().span))
    }

    /// A token of the same kind as `expected`.
    pub fn expect(&mut self, expected: &TokenKind) -> (r: Result<(), VeacError>)
        requires
            old(self).wf(),
        ensures
            r matches Err(e) ==> e@.span == Some(span_at(old(self).toks(), final(self).pos as int)),
            final(self).tokens@ == old(self).tokens@,
            final(self).wf(),
            old(self).pos <= final(self).pos,
            r is Ok && !(expected@ is Eof) ==> final(self).pos == old(self).pos + 1,
            p_expect(old(self).toks(), old(self).pos as int, expected@) == match r {
                Ok(_) => Ok(((), final(self).pos as int)),
                Err(e) => Err((e@, final(self).pos as int)),
            },
    {
        if kind_index(&self.current().kind) == kind_index(expected) {
            self.advance();
            Ok(())
        } else {
            let mut msg = String::new();
            push_str(&mut msg, "expected ");
            expected.push_description(&mut msg);
            push_str(&mut msg, ", found ");
            self.current().kind.push_description(&mut msg);
            let e = self.error_here(ErrorKind::ExpectedToken, msg);
            assert(e@.message =~= "expected "@ + describe(expected@) + ", found "@ + describe(
                kind_at(self.toks(), self.pos as int),
            ));
            Err(e)
        }
    }

    /// A string literal.
    pub fn expect_string(&mut self) -> (r: Result<String, VeacError>)
        requires
            old(self).wf(),
        ensures
            r matches Err(e) ==> e@.span == Some(span_at(old(self).toks(), final(self).pos as int)),
            final(self).tokens@ == old(self).tokens@,
            final(self).wf(),
            old(self).pos <= final(self).pos,
            p_string(old(self).toks(), old(self).pos as int) == step_of(r, final(self).pos as int),
    {
        let found = match &self.current().kind {
            TokenKind::StringLit(s) => Some(s.clone()),
            _ => None,
        };
        match found {
            Some(s) => {
                self.advance();
                Ok(s)
            },
            None => {
                let mut msg = String::new();
                push_str(&mut msg, "expected string, found ");
                self.current().kind.push_description(&mut msg);
                let e = self.error_here(ErrorKind::ExpectedToken, msg);
                assert(e@.message =~= "expected string, found "@ + describe(
                    kind_at(self.toks(), self.pos as int),
                ));
                Err(e)
            },
        }
    }

    /// An identifier.
    pub fn expect_ident(&mut self) -> (r: Result<String, VeacError>)
        requires
            old(self).wf(),
        ensures
            r matches Err(e) ==> e@.span == Some(span_at(old(self).toks(), final(self).pos as int)),
            final(self).tokens@ == old(self).tokens@,
            final(self).wf(),
            old(self).pos <= final(self).pos,
            p_ident(old(self).toks(), old(self).pos as int) == step_of(r, final(self).pos as int),
    {
        let found = match &self.current().kind {
            TokenKind::Ident(s) => Some(s.clone()),
            _ => None,
        };
        match found {
            Some(s) => {
                self.advance();
                Ok(s)
            },
            None => {
                let mut msg = String::new();
                push_str(&mut msg, "expected identifier, found ");
                self.current().kind.push_description(&mut msg);
                let e = self.error_here(ErrorKind::ExpectedToken, msg);
                assert(e@.message =~= "expected identifier, found "@ + describe(
                    kind_at(self.toks(), self.pos as int),
                ));
                Err(e)
            },
        }
    }

    /// An expression: a literal or an identifier.
    pub fn parse_expression(&mut self) -> (r: Result<Expression, VeacError>)
        requires
            old(self).wf(),
        ensures
            r matches Err(e) ==> e@.span == Some(span_at(old(self).toks(), final(self).pos as int)),
            final(self).tokens@ == old(self).tokens@,
            final(self).wf(),
            old(self).pos <= final(self).pos,
            p_expr(old(self).toks(), old(self).pos as int) == step_of(r, final(self).pos as int),
    {
        let found = match &self.current().kind {
            TokenKind::StringLit(s) => Some(Expression::StringLit(s.clone())),
            TokenKind::IntLit(n) => Some(Expression::IntLit(*n)),
            TokenKind::FloatLit(x) => Some(Expression::FloatLit(*x)),
            TokenKind::BoolLit(b) => Some(Expression::BoolLit(*b)),
            TokenKind::TimeSec(x) => Some(Expression::TimeSec(*x)),
            TokenKind::TimeMs(x) => Some(Expression::TimeMs(*x)),
            TokenKind::TimeFrames(n) => Some(Expression::TimeFrames(*n)),
            TokenKind::Smpte(s) => Some(Expression::Smpte(s.clone())),
            TokenKind::ColorLit(s) => Some(Expression::ColorLit(s.clone())),
            TokenKind::Ident(s) => Some(Expression::Ident(s.clone())),
            _ => None,
        };
        match found {
            Some(x) => {
                self.advance();
                Ok(x)
            },
            None => {
                let mut msg = String::new();
                push_str(&mut msg, "expected expression, found ");
                self.current().kind.push_description(&mut msg);
                let e = self.error_here(ErrorKind::ExpectedExpression, msg);
                assert(e@.message =~= "expected expression, found "@ + describe(
                    kind_at(self.toks(), self.pos as int),
                ));
                Err(e)
            },
        }
    }

    /// Whether the current token ends a run of attributes.
    fn at_attr_stop(&self) -> (b: bool)
        requires
            self.wf(),
        ensures
            b == attr_stop(kind_at(self.toks(), self.pos as int)),
    {
        match &self.current().kind {
            TokenKind::RBrace | TokenKind::Track | TokenKind::Clip | TokenKind::Text
            | TokenKind::Transition | TokenKind::Image => true,
            TokenKind::Ident(s) => {
                string_eq_str(s, "gap") || string_eq_str(s, "freeze") || string_eq_str(s, "pip")
                    || string_eq_str(s, "subtitle")
            },
            _ => false,
        }
    }

    /// Attributes `key = value` up to a token that ends them.
    pub fn parse_attributes(&mut self) -> (r: Result<Vec<Attribute>, VeacError>)
        requires
            old(self).wf(),
        ensures
            r matches Err(e) ==> e@.span == Some(span_at(old(self).toks(), final(self).pos as int)),
            final(self).tokens@ == old(self).tokens@,
            final(self).wf(),
            old(self).pos <= final(self).pos,
            p_attrs(old(self).toks(), old(self).pos as int) == attrs_step(r, final(self).pos as int),
    {
        let ghost ts = self.toks();
        let ghost p0 = self.pos as int;
        let mut attrs: Vec<Attribute> = Vec::new();
        proof {
            lemma_pre_seq_empty(p_attrs(ts, p0));
            assert(attrs_view(attrs@) =~= Seq::<AttrView>::empty());
        }
        loop
            invariant
                self.wf(),
                self.tokens@ == old(self).tokens@,
                ts == old(self).toks(),
                p0 == old(self).pos,
                p0 <= self.pos,
                p_attrs(ts, p0) == pre_seq(attrs_view(attrs@), p_attrs(ts, self.pos as int)),
            decreases ts.len() - self.pos,
        {
            let ghost i = self.pos as int;
            proof {
                lemma_adv(ts, i);
            }
            if self.at_attr_stop() {
                proof {
                    assert(attrs_view(attrs@) + Seq::<AttrView>::empty() =~= attrs_view(attrs@));
                }
                return Ok(attrs);
            }
            let key = match self.expect_ident() {
                Ok(k) => k,
                Err(e) => {
                    return Err(e);
                },
            };
            proof {
                lemma_adv(ts, i);
            }
            match self.expect(&TokenKind::Equals) {
                Ok(_) => {},
                Err(e) => {
                    return Err(e);
                },
            }
            let value = match self.parse_expression() {
                Ok(v) => v,
                Err(e) => {
                    return Err(e);
                },
            };
            let ghost a = (key@, value@);
            let ghost before = attrs_view(attrs@);
            attrs.push(Attribute { key, value });
            proof {
                assert(p_attr(ts, i) == Ok::<(AttrView, int), (ErrView, int)>((a, self.pos as int)));
                assert(attrs_view(attrs@) =~= before.push(a));
                lemma_pre_seq_step(before, a, p_attrs(ts, self.pos as int));
            }
        }
    }

    /// `{ attributes }`
    fn parse_block(&mut self) -> (r: Result<Vec<Attribute>, VeacError>)
        requires
            old(self).wf(),
        ensures
            r matches Err(e) ==> e@.span == Some(span_at(old(self).toks(), final(self).pos as int)),
            final(self).tokens@ == old(self).tokens@,
            final(self).wf(),
            old(self).pos <= final(self).pos,
            p_block(old(self).toks(), old(self).pos as int) == attrs_step(r, final(self).pos as int),
    {
        self.expect(&TokenKind::LBrace)?;
        let attributes = self.parse_attributes()?;
        self.expect(&TokenKind::RBrace)?;
        Ok(attributes)
    }

    fn parse_clip(&mut self) -> (r: Result<ClipDecl, VeacError>)
        requires
            old(self).wf(),
        ensures
            r matches Err(e) ==> e@.span == Some(span_at(old(self).toks(), final(self).pos as int)),
            final(self).tokens@ == old(self).tokens@,
            final(self).wf(),
            old(self).pos <= final(self).pos,
            r is Ok ==> old(self).pos < final(self).pos,
            p_clip(old(self).toks(), old(self).pos as int) == step_of(r, final(self).pos as int),
    {
        self.expect(&TokenKind::Clip)?;
        let asset_ref = self.expect_ident()?;
        let attributes = self.parse_block()?;
        Ok(ClipDecl { asset_ref, attributes })
    }

    /// `text "content" { attributes }`
    fn parse_text_overlay(&mut self) -> (r: Result<TextOverlayDecl, VeacError>)
        requires
            old(self).wf(),
        ensures
            r matches Err(e) ==> e@.span == Some(span_at(old(self).toks(), final(self).pos as int)),
            final(self).tokens@ == old(self).tokens@,
            final(self).wf(),
            old(self).pos <= final(self).pos,
            r is Ok ==> old(self).pos < final(self).pos,
            p_text(old(self).toks(), old(self).pos as int) == step_of(r, final(self).pos as int),
    {
        self.expect(&TokenKind::Text)?;
        let content = self.expect_string()?;
        let attributes = self.parse_block()?;
        Ok(TextOverlayDecl { content, attributes })
    }

    /// `transition { attributes }`
    fn parse_transition(&mut self) -> (r: Result<TransitionDecl, VeacError>)
        requires
            old(self).wf(),
        ensures
            r matches Err(e) ==> e@.span == Some(span_at(old(self).toks(), final(self).pos as int)),
            final(self).tokens@ == old(self).tokens@,
            final(self).wf(),
            old(self).pos <= final(self).pos,
            r is Ok ==> old(self).pos < final(self).pos,
            p_transition(old(self).toks(), old(self).pos as int) == step_of(r, final(self).pos as int),
    {
        self.expect(&TokenKind::Transition)?;
        let attributes = self.parse_block()?;
        Ok(TransitionDecl { attributes })
    }

    /// `image asset { attributes }`
    fn parse_image_overlay(&mut self) -> (r: Result<ImageOverlayDecl, VeacError>)
        requires
            old(self).wf(),
        ensures
            r matches Err(e) ==> e@.span == Some(span_at(old(self).toks(), final(self).pos as int)),
            final(self).tokens@ == old(self).tokens@,
            final(self).wf(),
            old(self).pos <= final(self).pos,
            r is Ok ==> old(self).pos < final(self).pos,
            p_image(old(self).toks(), old(self).pos as int) == step_of(r, final(self).pos as int),
    {
        self.expect(&TokenKind::Image)?;
        let asset_ref = self.expect_ident()?;
        let attributes = self.parse_block()?;
        Ok(ImageOverlayDecl { asset_ref, attributes })
    }

    /// `gap { attributes }`, at the word `gap`.
    fn parse_gap(&mut self) -> (r: Result<GapDecl, VeacError>)
        requires
            old(self).wf(),
            !(kind_at(old(self).toks(), old(self).pos as int) is Eof),
        ensures
            r matches Err(e) ==> e@.span == Some(span_at(old(self).toks(), final(self).pos as int)),
            final(self).tokens@ == old(self).tokens@,
            final(self).wf(),
            old(self).pos <= final(self).pos,
            r is Ok ==> old(self).pos < final(self).pos,
            p_gap(old(self).toks(), old(self).pos as int) == step_of(r, final(self).pos as int),
    {
        self.advance();
        let attributes = self.parse_block()?;
        Ok(GapDecl { attributes })
    }

    /// `freeze asset { attributes }`, at the word `freeze`.
    fn parse_freeze(&mut self) -> (r: Result<FreezeDecl, VeacError>)
        requires
            old(self).wf(),
            !(kind_at(old(self).toks(), old(self).pos as int) is Eof),
        ensures
            r matches Err(e) ==> e@.span == Some(span_at(old(self).toks(), final(self).pos as int)),
            final(self).tokens@ == old(self).tokens@,
            final(self).wf(),
            old(self).pos <= final(self).pos,
            r is Ok ==> old(self).pos < final(self).pos,
            p_freeze(old(self).toks(), old(self).pos as int) == step_of(r, final(self).pos as int),
    {
        self.advance();
        let asset_ref = self.expect_ident()?;
        let attributes = self.parse_block()?;
        Ok(FreezeDecl { asset_ref, attributes })
    }

    /// `pip asset { attributes }`, at the word `pip`.
    fn parse_pip(&mut self) -> (r: Result<PipDecl, VeacError>)
        requires
            old(self).wf(),
            !(kind_at(old(self).toks(), old(self).pos as int) is Eof),
        ensures
            r matches Err(e) ==> e@.span == Some(span_at(old(self).toks(), final(self).pos as int)),
            final(self).tokens@ == old(self).tokens@,
            final(self).wf(),
            old(self).pos <= final(self).pos,
            r is Ok ==> old(self).pos < final(self).pos,
            p_pip(old(self).toks(), old(self).pos as int) == step_of(r, final(self).pos as int),
    {
        self.advance();
        let asset_ref = self.expect_ident()?;
        let attributes = self.parse_block()?;
        Ok(PipDecl { asset_ref, attributes })
    }

    /// `subtitle "path" { attributes }`, at the word `subtitle`.
    fn parse_subtitle(&mut self) -> (r: Result<SubtitleDecl, VeacError>)
        requires
            old(self).wf(),
            !(kind_at(old(self).toks(), old(self).pos as int) is Eof),
        ensures
            r matches Err(e) ==> e@.span == Some(span_at(old(self).toks(), final(self).pos as int)),
            final(self).tokens@ == old(self).tokens@,
            final(self).wf(),
            old(self).pos <= final(self).pos,
            r is Ok ==> old(self).pos < final(self).pos,
            p_subtitle(old(self).toks(), old(self).pos as int) == step_of(r, final(self).pos as int),
    {
        self.advance();
        let path = self.expect_string()?;
        let attributes = self.parse_block()?;
        Ok(SubtitleDecl { path, attributes })
    }

    /// One track item, chosen by its first token.
    fn parse_item(&mut self) -> (r: Result<TrackItem, VeacError>)
        requires
            old(self).wf(),
        ensures
            r matches Err(e) ==> e@.span == Some(span_at(old(self).toks(), final(self).pos as int)),
            final(self).tokens@ == old(self).tokens@,
            final(self).wf(),
            old(self).pos <= final(self).pos,
            r is Ok ==> old(self).pos < final(self).pos,
            p_item(old(self).toks(), old(self).pos as int) == step_of(r, final(self).pos as int),
    {
        proof {
            reveal(p_item);
            lemma_adv(self.toks(), self.pos as int);
        }
        let which: u8 = match &self.current().kind {
            TokenKind::Clip => 0,
            TokenKind::Text => 1,
            TokenKind::Transition => 2,
            TokenKind::Image => 3,
            TokenKind::Ident(s) => {
                if string_eq_str(s, "gap") {
                    4
                } else if string_eq_str(s, "freeze") {
                    5
                } else if string_eq_str(s, "pip") {
                    6
                } else if string_eq_str(s, "subtitle") {
                    7
                } else {
                    8
                }
            },
            _ => 8,
        };
        if which == 0 {
            Ok(TrackItem::Clip(self.parse_clip()?))
        } else if which == 1 {
            Ok(TrackItem::TextOverlay(self.parse_text_overlay()?))
        } else if which == 2 {
            Ok(TrackItem::Transition(self.parse_transition()?))
        } else if which == 3 {
            Ok(TrackItem::ImageOverlay(self.parse_image_overlay()?))
        } else if which == 4 {
            Ok(TrackItem::Gap(self.parse_gap()?))
        } else if which == 5 {
            Ok(TrackItem::Freeze(self.parse_freeze()?))
        } else if which == 6 {
            Ok(TrackItem::Pip(self.parse_pip()?))
        } else if which == 7 {
            Ok(TrackItem::Subtitle(self.parse_subtitle()?))
        } else {
            let mut msg = String::new();
            push_str(&mut msg, "unexpected ");
            self.current().kind.push_description(&mut msg);
            push_str(&mut msg, " in track");
            let e = self.error_here(ErrorKind::UnexpectedToken, msg);
            assert(e@.message =~= "unexpected "@ + describe(kind_at(self.toks(), self.pos as int))
                + " in track"@);
            Err(e)
        }
    }

    /// `track kind { items }`
    #[verifier::loop_isolation(false)]
    #[verifier::rlimit(30)]
    fn parse_track(&mut self) -> (r: Result<TrackDecl, VeacError>)
        requires
            old(self).wf(),
        ensures
            r matches Err(e) ==> e@.span == Some(span_at(old(self).toks(), final(self).pos as int)),
            final(self).tokens@ == old(self).tokens@,
            final(self).wf(),
            old(self).pos <= final(self).pos,
            r is Ok ==> old(self).pos < final(self).pos,
            p_track(old(self).toks(), old(self).pos as int) == step_of(r, final(self).pos as int),
    {
        let ghost ts = self.toks();
        proof {
            reveal(p_track);
        }
        self.expect(&TokenKind::Track)?;
        let ghost i1 = self.pos as int;
        let found = match &self.current().kind {
            TokenKind::Video => Some(TrackKind::Video),
            TokenKind::Audio => Some(TrackKind::Audio),
            TokenKind::Text => Some(TrackKind::Text),
            TokenKind::Ident(s) => {
                if string_eq_str(s, "overlay") {
                    Some(TrackKind::Overlay)
                } else {
                    None
                }
            },
            _ => None,
        };
        let kind = match found {
            Some(k) => k,
            None => {
                let mut msg = String::new();
                push_str(&mut msg, "expected `video`, `audio`, `text`, or `overlay` after `track`, found ");
                self.current().kind.push_description(&mut msg);
                let e = self.error_here(ErrorKind::ExpectedToken, msg).with_hint(
                    string_of("track type must be `video`, `audio`, `text`, or `overlay`"),
                );
                assert(e@.message =~= "expected `video`, `audio`, `text`, or `overlay` after `track`, found "@
                    + describe(kind_at(ts, i1)));
                return Err(e);
            },
        };
        self.advance();
        self.expect(&TokenKind::LBrace)?;
        let ghost i2 = self.pos as int;
        let mut items: Vec<TrackItem> = Vec::new();
        proof {
            lemma_pre_seq_empty(p_items(ts, i2));
            assert(items_view(items@) =~= Seq::<ItemView>::empty());
        }
        loop
            invariant
                self.wf(),
                self.tokens@ == old(self).tokens@,
                ts == old(self).toks(),
                old(self).pos <= i2 <= self.pos,
                p_items(ts, i2) == pre_seq(items_view(items@), p_items(ts, self.pos as int)),
            decreases ts.len() - self.pos,
        {
            let ghost i = self.pos as int;
            proof {
                lemma_adv(ts, i);
            }
            if matches!(self.current().kind, TokenKind::RBrace) {
                proof {
                    assert(items_view(items@) + Seq::<ItemView>::empty() =~= items_view(items@));
                }
                break;
            }
            let item = match self.parse_item() {
                Ok(it) => it,
                Err(e) => {
                    return Err(e);
                },
            };
            let ghost a = item@;
            let ghost before = items_view(items@);
            items.push(item);
            proof {
                assert(items_view(items@) =~= before.push(a));
                lemma_pre_seq_step(before, a, p_items(ts, self.pos as int));
            }
        }
        self.expect(&TokenKind::RBrace)?;
        Ok(TrackDecl { kind, items })
    }

    /// `timeline name { tracks }`
    #[verifier::loop_isolation(false)]
    #[verifier::rlimit(30)]
    fn parse_timeline(&mut self) -> (r: Result<TimelineDecl, VeacError>)
        requires
            old(self).wf(),
        ensures
            r matches Err(e) ==> e@.span == Some(span_at(old(self).toks(), final(self).pos as int)),
            final(self).tokens@ == old(self).tokens@,
            final(self).wf(),
            old(self).pos <= final(self).pos,
            r is Ok ==> old(self).pos < final(self).pos,
            p_timeline(old(self).toks(), old(self).pos as int) == step_of(r, final(self).pos as int),
    {
        let ghost ts = self.toks();
        self.expect(&TokenKind::Timeline)?;
        let name = self.expect_ident()?;
        self.expect(&TokenKind::LBrace)?;
        let ghost i3 = self.pos as int;
        let mut tracks: Vec<TrackDecl> = Vec::new();
        proof {
            lemma_pre_seq_empty(p_tracks(ts, i3));
            assert(tracks_view(tracks@) =~= Seq::<TrackView>::empty());
        }
        loop
            invariant
                self.wf(),
                self.tokens@ == old(self).tokens@,
                ts == old(self).toks(),
                old(self).pos <= i3 <= self.pos,
                p_tracks(ts, i3) == pre_seq(tracks_view(tracks@), p_tracks(ts, self.pos as int)),
            decreases ts.len() - self.pos,
        {
            let ghost i = self.pos as int;
            proof {
                lemma_adv(ts, i);
            }
            if matches!(self.current().kind, TokenKind::RBrace) {
                proof {
                    assert(tracks_view(tracks@) + Seq::<TrackView>::empty() =~= tracks_view(tracks@));
                }
                break;
            }
            let track = match self.parse_track() {
                Ok(t) => t,
                Err(e) => {
                    return Err(e);
                },
            };
            let ghost a = track@;
            let ghost before = tracks_view(tracks@);
            tracks.push(track);
            proof {
                lemma_adv(ts, i);
                assert(tracks_view(tracks@) =~= before.push(a));
                lemma_pre_seq_step(before, a, p_tracks(ts, self.pos as int));
            }
        }
        self.expect(&TokenKind::RBrace)?;
        Ok(TimelineDecl { name, tracks })
    }

    /// `project "name" { attributes }`
    fn parse_project(&mut self) -> (r: Result<ProjectDecl, VeacError>)
        requires
            old(self).wf(),
        ensures
            r matches Err(e) ==> e@.span == Some(span_at(old(self).toks(), final(self).pos as int)),
            final(self).tokens@ == old(self).tokens@,
            final(self).wf(),
            old(self).pos <= final(self).pos,
            r is Ok ==> old(self).pos < final(self).pos,
            p_project(old(self).toks(), old(self).pos as int) == step_of(r, final(self).pos as int),
    {
        self.expect(&TokenKind::Project)?;
        let name = self.expect_string()?;
        let attributes = self.parse_block()?;
        Ok(ProjectDecl { name, attributes })
    }

    /// `let name = expr`
    fn parse_let(&mut self) -> (r: Result<LetDecl, VeacError>)
        requires
            old(self).wf(),
        ensures
            r matches Err(e) ==> e@.span == Some(span_at(old(self).toks(), final(self).pos as int)),
            final(self).tokens@ == old(self).tokens@,
            final(self).wf(),
            old(self).pos <= final(self).pos,
            r is Ok ==> old(self).pos < final(self).pos,
            p_let(old(self).toks(), old(self).pos as int) == step_of(r, final(self).pos as int),
    {
        self.expect(&TokenKind::Let)?;
        let name = self.expect_ident()?;
        self.expect(&TokenKind::Equals)?;
        let value = self.parse_expression()?;
        Ok(LetDecl { name, value })
    }

    /// `include "path"`
    fn parse_include(&mut self) -> (r: Result<IncludeDecl, VeacError>)
        requires
            old(self).wf(),
        ensures
            r matches Err(e) ==> e@.span == Some(span_at(old(self).toks(), final(self).pos as int)),
            final(self).tokens@ == old(self).tokens@,
            final(self).wf(),
            old(self).pos <= final(self).pos,
            r is Ok ==> old(self).pos < final(self).pos,
            p_include(old(self).toks(), old(self).pos as int) == step_of(r, final(self).pos as int),
    {
        self.expect(&TokenKind::Include)?;
        let path = self.expect_string()?;
        Ok(IncludeDecl { path })
    }

    /// `asset name = kind("path")`
    #[verifier::rlimit(30)]
    fn parse_asset(&mut self) -> (r: Result<AssetDecl, VeacError>)
        requires
            old(self).wf(),
        ensures
            r matches Err(e) ==> e@.span == Some(span_at(old(self).toks(), final(self).pos as int)),
            final(self).tokens@ == old(self).tokens@,
            final(self).wf(),
            old(self).pos <= final(self).pos,
            r is Ok ==> old(self).pos < final(self).pos,
            p_asset(old(self).toks(), old(self).pos as int) == step_of(r, final(self).pos as int),
    {
        self.expect(&TokenKind::Asset)?;
        let name = self.expect_ident()?;
        self.expect(&TokenKind::Equals)?;
        let found = match &self.current().kind {
            TokenKind::Video => Some(AssetKind::Video),
            TokenKind::Audio => Some(AssetKind::Audio),
            TokenKind::Image => Some(AssetKind::Image),
            _ => None,
        };
        let kind = match found {
            Some(k) => k,
            None => {
                let mut msg = String::new();
                push_str(&mut msg, "expected `video`, `audio`, or `image`, found ");
                self.current().kind.push_description(&mut msg);
                let e = self.error_here(ErrorKind::ExpectedToken, msg);
                assert(e@.message =~= "expected `video`, `audio`, or `image`, found "@ + describe(
                    kind_at(self.toks(), self.pos as int),
                ));
                return Err(e);
            },
        };
        self.advance();
        self.expect(&TokenKind::LParen)?;
        let path = self.expect_string()?;
        self.expect(&TokenKind::RParen)?;
        Ok(AssetDecl { name, kind, path })
    }

    /// `output "path" { attributes }`, at the word `output`.
    fn parse_output(&mut self) -> (r: Result<OutputDecl, VeacError>)
        requires
            old(self).wf(),
            !(kind_at(old(self).toks(), old(self).pos as int) is Eof),
        ensures
            r matches Err(e) ==> e@.span == Some(span_at(old(self).toks(), final(self).pos as int)),
            final(self).tokens@ == old(self).tokens@,
            final(self).wf(),
            old(self).pos <= final(self).pos,
            r is Ok ==> old(self).pos < final(self).pos,
            p_output(old(self).toks(), old(self).pos as int) == step_of(r, final(self).pos as int),
    {
        self.advance();
        let path = self.expect_string()?;
        let attributes = self.parse_block()?;
        Ok(OutputDecl { path, attributes })
    }

    /// Parse the token stream into a complete program.
    #[verifier::rlimit(30)]
    pub fn parse(&mut self) -> (r: Result<Program, VeacError>)
        requires
            old(self).wf(),
        ensures
            r matches Err(e) ==> e@.span == Some(span_at(old(self).toks(), final(self).pos as int)),
            final(self).tokens@ == old(self).tokens@,
            final(self).wf(),
            parse_spec(old(self).toks(), old(self).pos as int) == step_of(r, final(self).pos as int),
    {
        let ghost ts = self.toks();
        let mut program = Program {
            includes: Vec::new(),
            project: None,
            assets: Vec::new(),
            variables: Vec::new(),
            timelines: Vec::new(),
            outputs: Vec::new(),
        };
        assert(program@ == empty_program()) by {
            assert(program@.includes =~= Seq::<Seq<char>>::empty());
            assert(program@.assets =~= Seq::<AssetView>::empty());
            assert(program@.variables =~= Seq::<LetView>::empty());
            assert(program@.timelines =~= Seq::<TimelineView>::empty());
            assert(program@.outputs =~= Seq::<BlockView>::empty());
        }
        loop
            invariant
                self.wf(),
                self.tokens@ == old(self).tokens@,
                ts == old(self).toks(),
                old(self).pos <= self.pos,
                parse_spec(ts, old(self).pos as int) == p_decls(ts, self.pos as int, program@),
            decreases ts.len() - self.pos,
        {
            let ghost i = self.pos as int;
            let ghost acc = program@;
            proof {
                lemma_adv(ts, i);
                reveal(p_decl);
            }
            let which: u8 = match &self.current().kind {
                TokenKind::Include => 0,
                TokenKind::Project => 1,
                TokenKind::Asset => 2,
                TokenKind::Let => 3,
                TokenKind::Timeline => 4,
                TokenKind::Ident(s) => if string_eq_str(s, "output") { 5 } else { 7 },
                TokenKind::Eof => 6,
                _ => 7,
            };
            if which == 0 {
                let d = self.parse_include()?;
                program.includes.push(d);
                assert(program@ == ProgramView { includes: acc.includes.push(d@), ..acc }) by {
                    assert(program@.includes =~= acc.includes.push(d@));
                }
            } else if which == 1 {
                if program.project.is_some() {
                    let e = self.error_here(ErrorKind::DuplicateDefinition, string_of("duplicate `project` declaration"))
                        .with_hint(string_of("only one `project` block is allowed per file"));
                    return Err(e);
                }
                let d = self.parse_project()?;
                program.project = Some(d);
            } else if which == 2 {
                let d = self.parse_asset()?;
                program.assets.push(d);
                assert(program@ == ProgramView { assets: acc.assets.push(d@), ..acc }) by {
                    assert(program@.assets =~= acc.assets.push(d@));
                }
            } else if which == 3 {
                let d = self.parse_let()?;
                program.variables.push(d);
                assert(program@ == ProgramView { variables: acc.variables.push(d@), ..acc }) by {
                    assert(program@.variables =~= acc.variables.push(d@));
                }
            } else if which == 4 {
                let d = self.parse_timeline()?;
                program.timelines.push(d);
                assert(program@ == ProgramView { timelines: acc.timelines.push(d@), ..acc }) by {
                    assert(program@.timelines =~= acc.timelines.push(d@));
                }
            } else if which == 5 {
                let d = self.parse_output()?;
                program.outputs.push(d);
                assert(program@ == ProgramView { outputs: acc.outputs.push(d@), ..acc }) by {
                    assert(program@.outputs =~= acc.outputs.push(d@));
                }
            } else if which == 6 {
                return Ok(program);
            } else {
                let mut msg = String::new();
                push_str(&mut msg, "unexpected ");
                self.current().kind.push_description(&mut msg);
                push_str(&mut msg, " at top level");
                let e = self.error_here(ErrorKind::UnexpectedToken, msg).with_hint(
                    string_of("expected `project`, `asset`, `let`, `timeline`, `output`, or `include`"),
                );
                assert(e@.message =~= "unexpected "@ + describe(kind_at(ts, i)) + " at top level"@);
                return Err(e);
            }
        }
    }
}

} // verus!
