//! The grammar of VEAC, as functions from a token sequence and a position
//! to a parsed value and the position after it, or an error and the
//! position the parser stopped at.
use vstd::prelude::*;
use crate::ast::{AssetKind, AssetView, AttrView, BlockView, ExprView, ItemView, LetView, ProgramView, TimelineView, TrackKind, TrackView};
use crate::error::{err, ErrView, ErrorKind, VeacError};
use crate::token::{describe, KindView, Span};

verus! {

pub type Toks = Seq<(KindView, Span)>;

pub type PStep<T> = Result<(T, int), (ErrView, int)>;

pub open spec fn kind_at(ts: Toks, i: int) -> KindView {
    ts[i].0
}

pub open spec fn span_at(ts: Toks, i: int) -> Span {
    ts[i].1
}

/// The token at `k` ends the file.
pub open spec fn eof_at(ts: Toks, k: int) -> bool {
    kind_at(ts, k) is Eof
}

/// An end-of-file token stands at `i` or after it.
pub open spec fn reaches_eof(ts: Toks, i: int) -> bool {
    exists|k: int| i <= k < ts.len() && #[trigger] eof_at(ts, k)
}

/// The step that an executable result and the position after it make.
pub open spec fn step_of<T: View>(r: Result<T, VeacError>, pos: int) -> PStep<T::V> {
    match r {
        Ok(v) => Ok((v@, pos)),
        Err(e) => Err((e@, pos)),
    }
}

/// A step whose sequence result is put behind `pre`.
pub open spec fn pre_seq<T>(pre: Seq<T>, r: PStep<Seq<T>>) -> PStep<Seq<T>> {
    match r {
        Ok((rest, k)) => Ok((pre + rest, k)),
        Err(e) => Err(e),
    }
}

/// Putting `a` behind `pre` and then the result behind it is putting both at once.
pub proof fn lemma_pre_seq_step<T>(pre: Seq<T>, a: T, r: PStep<Seq<T>>)
    ensures
        pre_seq(pre, pre_seq(seq![a], r)) == pre_seq(pre.push(a), r),
{
    match r {
        Ok((rest, k)) => {
            assert(pre + (seq![a] + rest) =~= pre.push(a) + rest);
        },
        Err(_) => {},
    }
}

/// Nothing put behind a step changes nothing.
pub proof fn lemma_pre_seq_empty<T>(r: PStep<Seq<T>>)
    ensures
        pre_seq(Seq::<T>::empty(), r) == r,
{
    match r {
        Ok((rest, k)) => {
            assert(Seq::<T>::empty() + rest =~= rest);
        },
        Err(_) => {},
    }
}

/// The position after the token at `i`; the end-of-file token is never passed.
pub open spec fn adv(ts: Toks, i: int) -> int {
    if kind_at(ts, i) is Eof {
        i
    } else {
        i + 1
    }
}

/// A number for each kind of token, telling the kinds apart regardless of
/// the value they carry.
pub open spec fn variant(k: KindView) -> int {
    match k {
        KindView::Project => 0,
        KindView::Asset => 1,
        KindView::Timeline => 2,
        KindView::Track => 3,
        KindView::Clip => 4,
        KindView::Text => 5,
        KindView::Transition => 6,
        KindView::Let => 7,
        KindView::Include => 8,
        KindView::Video => 9,
        KindView::Audio => 10,
        KindView::Image => 11,
        KindView::Ident(_) => 12,
        KindView::StringLit(_) => 13,
        KindView::IntLit(_) => 14,
        KindView::FloatLit(_) => 15,
        KindView::BoolLit(_) => 16,
        KindView::TimeSec(_) => 17,
        KindView::TimeMs(_) => 18,
        KindView::TimeFrames(_) => 19,
        KindView::Smpte(_) => 20,
        KindView::ColorLit(_) => 21,
        KindView::LBrace => 22,
        KindView::RBrace => 23,
        KindView::LParen => 24,
        KindView::RParen => 25,
        KindView::Equals => 26,
        KindView::Comma => 27,
        KindView::Dot => 28,
        KindView::Eof => 29,
    }
}

/// The error at `i` whose message is `msg`, without a hint.
pub open spec fn fail<T>(ts: Toks, i: int, kind: ErrorKind, msg: Seq<char>) -> PStep<T> {
    Err((err(kind, msg, Some(span_at(ts, i)), None), i))
}

/// Continue with `f` after a successful step.
pub open spec fn bind<A, B>(r: PStep<A>, f: spec_fn(A, int) -> PStep<B>) -> PStep<B> {
    match r {
        Ok((a, j)) => f(a, j),
        Err(e) => Err(e),
    }
}

/// A token of the same kind as `e`.
pub open spec fn p_expect(ts: Toks, i: int, e: KindView) -> PStep<()> {
    if variant(kind_at(ts, i)) == variant(e) {
        Ok(((), adv(ts, i)))
    } else {
        fail(ts, i, ErrorKind::ExpectedToken, "expected "@ + describe(e) + ", found "@ + describe(kind_at(ts, i)))
    }
}

/// A string literal.
pub open spec fn p_string(ts: Toks, i: int) -> PStep<Seq<char>> {
    match kind_at(ts, i) {
        KindView::StringLit(s) => Ok((s, adv(ts, i))),
        k => fail(ts, i, ErrorKind::ExpectedToken, "expected string, found "@ + describe(k)),
    }
}

/// An identifier.
pub open spec fn p_ident(ts: Toks, i: int) -> PStep<Seq<char>> {
    match kind_at(ts, i) {
        KindView::Ident(s) => Ok((s, adv(ts, i))),
        k => fail(ts, i, ErrorKind::ExpectedToken, "expected identifier, found "@ + describe(k)),
    }
}

/// An expression: a literal or an identifier.
pub open spec fn p_expr(ts: Toks, i: int) -> PStep<ExprView> {
    let j = adv(ts, i);
    match kind_at(ts, i) {
        KindView::StringLit(s) => Ok((ExprView::StringLit(s), j)),
        KindView::IntLit(n) => Ok((ExprView::IntLit(n), j)),
        KindView::FloatLit(x) => Ok((ExprView::FloatLit(x), j)),
        KindView::BoolLit(b) => Ok((ExprView::BoolLit(b), j)),
        KindView::TimeSec(x) => Ok((ExprView::TimeSec(x), j)),
        KindView::TimeMs(x) => Ok((ExprView::TimeMs(x), j)),
        KindView::TimeFrames(n) => Ok((ExprView::TimeFrames(n), j)),
        KindView::Smpte(s) => Ok((ExprView::Smpte(s), j)),
        KindView::ColorLit(s) => Ok((ExprView::ColorLit(s), j)),
        KindView::Ident(s) => Ok((ExprView::Ident(s), j)),
        k => fail(ts, i, ErrorKind::ExpectedExpression, "expected expression, found "@ + describe(k)),
    }
}

/// The word that starts a track item other than `clip`, `text`,
/// `transition` and `image`.
pub open spec fn item_word(s: Seq<char>) -> bool {
    s == "gap"@ || s == "freeze"@ || s == "pip"@ || s == "subtitle"@
}

/// A token that ends a run of attributes without being consumed.
pub open spec fn attr_stop(k: KindView) -> bool {
    match k {
        KindView::RBrace | KindView::Track | KindView::Clip | KindView::Text | KindView::Transition
        | KindView::Image => true,
        KindView::Ident(s) => item_word(s),
        _ => false,
    }
}

/// One attribute `key = value`.
pub open spec fn p_attr(ts: Toks, i: int) -> PStep<AttrView> {
    bind(p_ident(ts, i), |key: Seq<char>, i1: int|
        bind(p_expect(ts, i1, KindView::Equals), |_u: (), i2: int|
            bind(p_expr(ts, i2), |v: ExprView, i3: int| Ok(((key, v), i3)))))
}

/// Attributes up to a token that ends them.
pub open spec fn p_attrs(ts: Toks, i: int) -> PStep<Seq<AttrView>>
    decreases ts.len() - i,
{
    if i < 0 || i >= ts.len() || attr_stop(kind_at(ts, i)) {
        Ok((Seq::empty(), i))
    } else {
        match p_attr(ts, i) {
            Err(e) => Err(e),
            Ok((a, j)) => {
                if i < j <= ts.len() {
                    match p_attrs(ts, j) {
                        Ok((rest, k)) => Ok((seq![a] + rest, k)),
                        Err(e) => Err(e),
                    }
                } else {
                    Ok((seq![a], j))
                }
            },
        }
    }
}

/// `{ attributes }`
pub open spec fn p_block(ts: Toks, i: int) -> PStep<Seq<AttrView>> {
    bind(p_expect(ts, i, KindView::LBrace), |_u: (), i1: int|
        bind(p_attrs(ts, i1), |attrs: Seq<AttrView>, i2: int|
            bind(p_expect(ts, i2, KindView::RBrace), |_v: (), i3: int| Ok((attrs, i3)))))
}

/// A name given by `head` at `i`, then a block.
pub open spec fn p_named_block(head: PStep<Seq<char>>, ts: Toks) -> PStep<BlockView> {
    bind(head, |name: Seq<char>, i1: int|
        bind(p_block(ts, i1), |attrs: Seq<AttrView>, i2: int| Ok(((name, attrs), i2))))
}

/// `clip asset { attributes }`
pub open spec fn p_clip(ts: Toks, i: int) -> PStep<BlockView> {
    p_named_block(bind(p_expect(ts, i, KindView::Clip), |_u: (), j: int| p_ident(ts, j)), ts)
}

/// `text "content" { attributes }`
pub open spec fn p_text(ts: Toks, i: int) -> PStep<BlockView> {
    p_named_block(bind(p_expect(ts, i, KindView::Text), |_u: (), j: int| p_string(ts, j)), ts)
}

/// `transition { attributes }`
pub open spec fn p_transition(ts: Toks, i: int) -> PStep<Seq<AttrView>> {
    bind(p_expect(ts, i, KindView::Transition), |_u: (), j: int| p_block(ts, j))
}

/// `image asset { attributes }`
pub open spec fn p_image(ts: Toks, i: int) -> PStep<BlockView> {
    p_named_block(bind(p_expect(ts, i, KindView::Image), |_u: (), j: int| p_ident(ts, j)), ts)
}

/// `gap { attributes }`, the word `gap` standing at `i`.
pub open spec fn p_gap(ts: Toks, i: int) -> PStep<Seq<AttrView>> {
    p_block(ts, adv(ts, i))
}

/// `freeze asset { attributes }`, the word `freeze` standing at `i`.
pub open spec fn p_freeze(ts: Toks, i: int) -> PStep<BlockView> {
    p_named_block(p_ident(ts, adv(ts, i)), ts)
}

/// `pip asset { attributes }`, the word `pip` standing at `i`.
pub open spec fn p_pip(ts: Toks, i: int) -> PStep<BlockView> {
    p_named_block(p_ident(ts, adv(ts, i)), ts)
}

/// `subtitle "path" { attributes }`, the word `subtitle` standing at `i`.
pub open spec fn p_subtitle(ts: Toks, i: int) -> PStep<BlockView> {
    p_named_block(p_string(ts, adv(ts, i)), ts)
}

/// The error for a token that cannot start a track item.
pub open spec fn item_error(ts: Toks, i: int) -> PStep<ItemView> {
    fail(ts, i, ErrorKind::UnexpectedToken, "unexpected "@ + describe(kind_at(ts, i)) + " in track"@)
}

/// One track item.
#[verifier::opaque]
pub open spec fn p_item(ts: Toks, i: int) -> PStep<ItemView> {
    match kind_at(ts, i) {
        KindView::Clip => bind(p_clip(ts, i), |b: BlockView, j: int| Ok((ItemView::Clip(b), j))),
        KindView::Text => bind(p_text(ts, i), |b: BlockView, j: int| Ok((ItemView::TextOverlay(b), j))),
        KindView::Transition => bind(p_transition(ts, i), |a: Seq<AttrView>, j: int| Ok((ItemView::Transition(a), j))),
        KindView::Image => bind(p_image(ts, i), |b: BlockView, j: int| Ok((ItemView::ImageOverlay(b), j))),
        KindView::Ident(s) => {
            if s == "gap"@ {
                bind(p_gap(ts, i), |a: Seq<AttrView>, j: int| Ok((ItemView::Gap(a), j)))
            } else if s == "freeze"@ {
                bind(p_freeze(ts, i), |b: BlockView, j: int| Ok((ItemView::Freeze(b), j)))
            } else if s == "pip"@ {
                bind(p_pip(ts, i), |b: BlockView, j: int| Ok((ItemView::Pip(b), j)))
            } else if s == "subtitle"@ {
                bind(p_subtitle(ts, i), |b: BlockView, j: int| Ok((ItemView::Subtitle(b), j)))
            } else {
                item_error(ts, i)
            }
        },
        _ => item_error(ts, i),
    }
}

/// Track items up to the closing `}`.
pub open spec fn p_items(ts: Toks, i: int) -> PStep<Seq<ItemView>>
    decreases ts.len() - i,
{
    if i < 0 || i >= ts.len() || kind_at(ts, i) is RBrace {
        Ok((Seq::empty(), i))
    } else {
        match p_item(ts, i) {
            Err(e) => Err(e),
            Ok((a, j)) => {
                if i < j <= ts.len() {
                    match p_items(ts, j) {
                        Ok((rest, k)) => Ok((seq![a] + rest, k)),
                        Err(e) => Err(e),
                    }
                } else {
                    Ok((seq![a], j))
                }
            },
        }
    }
}

/// The kind of track a token names.
pub open spec fn track_kind_of(k: KindView) -> Option<TrackKind> {
    match k {
        KindView::Video => Some(TrackKind::Video),
        KindView::Audio => Some(TrackKind::Audio),
        KindView::Text => Some(TrackKind::Text),
        KindView::Ident(s) => if s == "overlay"@ { Some(TrackKind::Overlay) } else { None },
        _ => None,
    }
}

/// `track kind { items }`
#[verifier::opaque]
pub open spec fn p_track(ts: Toks, i: int) -> PStep<TrackView> {
    bind(p_expect(ts, i, KindView::Track), |_u: (), i1: int|
        match track_kind_of(kind_at(ts, i1)) {
            None => Err((
                err(
                    ErrorKind::ExpectedToken,
                    "expected `video`, `audio`, `text`, or `overlay` after `track`, found "@ + describe(kind_at(ts, i1)),
                    Some(span_at(ts, i1)),
                    Some("track type must be `video`, `audio`, `text`, or `overlay`"@),
                ),
                i1,
            )),
            Some(tk) => bind(p_expect(ts, adv(ts, i1), KindView::LBrace), |_v: (), i2: int|
                bind(p_items(ts, i2), |items: Seq<ItemView>, i3: int|
                    bind(p_expect(ts, i3, KindView::RBrace), |_w: (), i4: int| Ok(((tk, items), i4))))),
        })
}

/// Tracks up to the closing `}`.
pub open spec fn p_tracks(ts: Toks, i: int) -> PStep<Seq<TrackView>>
    decreases ts.len() - i,
{
    if i < 0 || i >= ts.len() || kind_at(ts, i) is RBrace {
        Ok((Seq::empty(), i))
    } else {
        match p_track(ts, i) {
            Err(e) => Err(e),
            Ok((a, j)) => {
                if i < j <= ts.len() {
                    match p_tracks(ts, j) {
                        Ok((rest, k)) => Ok((seq![a] + rest, k)),
                        Err(e) => Err(e),
                    }
                } else {
                    Ok((seq![a], j))
                }
            },
        }
    }
}

/// `timeline name { tracks }`
pub open spec fn p_timeline(ts: Toks, i: int) -> PStep<TimelineView> {
    bind(p_expect(ts, i, KindView::Timeline), |_u: (), i1: int|
        bind(p_ident(ts, i1), |name: Seq<char>, i2: int|
            bind(p_expect(ts, i2, KindView::LBrace), |_v: (), i3: int|
                bind(p_tracks(ts, i3), |tracks: Seq<TrackView>, i4: int|
                    bind(p_expect(ts, i4, KindView::RBrace), |_w: (), i5: int| Ok(((name, tracks), i5)))))))
}

/// `project "name" { attributes }`
pub open spec fn p_project(ts: Toks, i: int) -> PStep<BlockView> {
    p_named_block(bind(p_expect(ts, i, KindView::Project), |_u: (), j: int| p_string(ts, j)), ts)
}

/// The kind of asset a token names.
pub open spec fn asset_kind_of(k: KindView) -> Option<AssetKind> {
    match k {
        KindView::Video => Some(AssetKind::Video),
        KindView::Audio => Some(AssetKind::Audio),
        KindView::Image => Some(AssetKind::Image),
        _ => None,
    }
}

/// `asset name = kind("path")`
pub open spec fn p_asset(ts: Toks, i: int) -> PStep<AssetView> {
    bind(p_expect(ts, i, KindView::Asset), |_u: (), i1: int|
        bind(p_ident(ts, i1), |name: Seq<char>, i2: int|
            bind(p_expect(ts, i2, KindView::Equals), |_v: (), i3: int|
                match asset_kind_of(kind_at(ts, i3)) {
                    None => fail(ts, i3, ErrorKind::ExpectedToken,
                        "expected `video`, `audio`, or `image`, found "@ + describe(kind_at(ts, i3))),
                    Some(ak) => bind(p_expect(ts, adv(ts, i3), KindView::LParen), |_w: (), i4: int|
                        bind(p_string(ts, i4), |path: Seq<char>, i5: int|
                            bind(p_expect(ts, i5, KindView::RParen), |_x: (), i6: int| Ok(((name, ak, path), i6))))),
                })))
}

/// `let name = expr`
pub open spec fn p_let(ts: Toks, i: int) -> PStep<LetView> {
    bind(p_expect(ts, i, KindView::Let), |_u: (), i1: int|
        bind(p_ident(ts, i1), |name: Seq<char>, i2: int|
            bind(p_expect(ts, i2, KindView::Equals), |_v: (), i3: int|
                bind(p_expr(ts, i3), |v: ExprView, i4: int| Ok(((name, v), i4))))))
}

/// `include "path"`
pub open spec fn p_include(ts: Toks, i: int) -> PStep<Seq<char>> {
    bind(p_expect(ts, i, KindView::Include), |_u: (), i1: int| p_string(ts, i1))
}

/// `output "path" { attributes }`
pub open spec fn p_output(ts: Toks, i: int) -> PStep<BlockView> {
    p_named_block(p_string(ts, adv(ts, i)), ts)
}

/// One top-level declaration at `i`, added to what was parsed before it.
#[verifier::opaque]
pub open spec fn p_decl(ts: Toks, i: int, acc: ProgramView) -> PStep<ProgramView> {
    match kind_at(ts, i) {
        KindView::Include => bind(p_include(ts, i), |d: Seq<char>, j: int|
            Ok((ProgramView { includes: acc.includes.push(d), ..acc }, j))),
        KindView::Project => {
            if acc.project is Some {
                Err((
                    err(
                        ErrorKind::DuplicateDefinition,
                        "duplicate `project` declaration"@,
                        Some(span_at(ts, i)),
                        Some("only one `project` block is allowed per file"@),
                    ),
                    i,
                ))
            } else {
                bind(p_project(ts, i), |d: BlockView, j: int| Ok((ProgramView { project: Some(d), ..acc }, j)))
            }
        },
        KindView::Asset => bind(p_asset(ts, i), |d: AssetView, j: int|
            Ok((ProgramView { assets: acc.assets.push(d), ..acc }, j))),
        KindView::Let => bind(p_let(ts, i), |d: LetView, j: int|
            Ok((ProgramView { variables: acc.variables.push(d), ..acc }, j))),
        KindView::Timeline => bind(p_timeline(ts, i), |d: TimelineView, j: int|
            Ok((ProgramView { timelines: acc.timelines.push(d), ..acc }, j))),
        KindView::Ident(s) => {
            if s == "output"@ {
                bind(p_output(ts, i), |d: BlockView, j: int| Ok((ProgramView { outputs: acc.outputs.push(d), ..acc }, j)))
            } else {
                top_level_error(ts, i)
            }
        },
        _ => top_level_error(ts, i),
    }
}

/// The error for a token that cannot start a declaration.
pub open spec fn top_level_error(ts: Toks, i: int) -> PStep<ProgramView> {
    Err((
        err(
            ErrorKind::UnexpectedToken,
            "unexpected "@ + describe(kind_at(ts, i)) + " at top level"@,
            Some(span_at(ts, i)),
            Some("expected `project`, `asset`, `let`, `timeline`, `output`, or `include`"@),
        ),
        i,
    ))
}

/// Declarations from `i` up to the end of file, added to `acc`.
pub open spec fn p_decls(ts: Toks, i: int, acc: ProgramView) -> PStep<ProgramView>
    decreases ts.len() - i,
{
    if i < 0 || i >= ts.len() || kind_at(ts, i) is Eof {
        Ok((acc, i))
    } else {
        match p_decl(ts, i, acc) {
            Err(e) => Err(e),
            Ok((acc2, j)) => {
                if i < j <= ts.len() {
                    p_decls(ts, j, acc2)
                } else {
                    Ok((acc2, j))
                }
            },
        }
    }
}

/// The empty program.
pub open spec fn empty_program() -> ProgramView {
    ProgramView {
        includes: Seq::empty(),
        project: None,
        assets: Seq::empty(),
        variables: Seq::empty(),
        timelines: Seq::empty(),
        outputs: Seq::empty(),
    }
}

/// The program that the tokens from `i` on spell.
pub open spec fn parse_spec(ts: Toks, i: int) -> PStep<ProgramView> {
    p_decls(ts, i, empty_program())
}

} // verus!
