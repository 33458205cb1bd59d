//! What semantic analysis computes, stated over the views of the syntax
//! tree: each resolver is a fold of its block's attributes, and a program
//! resolves when each of its parts does, the first failure deciding the
//! error.
use vstd::prelude::*;
use crate::ast::{AssetKind, AssetView, AttrView, BlockView, ExprView, ItemView, LetView, ProgramView, TimelineView, TrackKind, TrackView};
use crate::error::{err, ErrView, ErrorKind};
use crate::fixed::{fixed_text, tdiv, Fixed, SCALE};
use crate::ir::{
    default_clip, Codec, FitMode, IrAssetKind, IrAssetView, IrClipView, IrFreezeView, IrGap,
    IrImageOverlayView, IrItemView, IrOutputConfigView, IrPipView, IrProgramView, IrProjectView,
    IrTextOverlayView, IrTimelineView, IrTrackKind, IrTrackView, IrTransition, OutputFormat, Quality,
};
use crate::ir_kinds::{transition_named, Position, TransitionKind};
use crate::split::{join_path, parse_u32_spec, split_on, trim_start};
use crate::lexer::{decimal_raw, sat_raw};
use crate::text::{int_text, is_digit};

verus! {

/// `s` in backticks.
pub open spec fn tick(s: Seq<char>) -> Seq<char> {
    "`"@ + s + "`"@
}

// ---------------------------------------------------------------------------
// Folds
// ---------------------------------------------------------------------------

/// `step` applied to each attribute in turn, from `init`, stopping at the
/// first error.
pub open spec fn fold_attrs<S>(
    attrs: Seq<AttrView>,
    init: S,
    step: spec_fn(S, AttrView) -> Result<S, ErrView>,
) -> Result<S, ErrView>
    decreases attrs.len(),
{
    if attrs.len() == 0 {
        Ok(init)
    } else {
        match fold_attrs(attrs.drop_last(), init, step) {
            Ok(s) => step(s, attrs.last()),
            Err(e) => Err(e),
        }
    }
}

/// One more attribute folded.
pub proof fn lemma_fold_attrs_step<S>(
    attrs: Seq<AttrView>,
    i: int,
    init: S,
    step: spec_fn(S, AttrView) -> Result<S, ErrView>,
)
    requires
        0 <= i < attrs.len(),
    ensures
        fold_attrs(attrs.take(i + 1), init, step) == match fold_attrs(attrs.take(i), init, step) {
            Ok(s) => step(s, attrs[i]),
            Err(e) => Err(e),
        },
{
    assert(attrs.take(i + 1).drop_last() =~= attrs.take(i));
}

/// Once a prefix of the attributes fails, the whole fold fails the same way.
pub proof fn lemma_fold_attrs_err<S>(
    attrs: Seq<AttrView>,
    k: int,
    init: S,
    step: spec_fn(S, AttrView) -> Result<S, ErrView>,
)
    requires
        0 <= k <= attrs.len(),
        fold_attrs(attrs.take(k), init, step) is Err,
    ensures
        fold_attrs(attrs, init, step) == fold_attrs(attrs.take(k), init, step),
    decreases attrs.len() - k,
{
    if k == attrs.len() {
        assert(attrs.take(k) =~= attrs);
    } else {
        lemma_fold_attrs_step(attrs, k, init, step);
        lemma_fold_attrs_err(attrs, k + 1, init, step);
    }
}

/// `f` applied to each element in turn, all results when every one
/// succeeds, else the first error.
pub open spec fn all_ok<A, B>(xs: Seq<A>, f: spec_fn(A) -> Result<B, ErrView>) -> Result<Seq<B>, ErrView>
    decreases xs.len(),
{
    if xs.len() == 0 {
        Ok(Seq::empty())
    } else {
        match all_ok(xs.drop_last(), f) {
            Err(e) => Err(e),
            Ok(bs) => match f(xs.last()) {
                Ok(b) => Ok(bs.push(b)),
                Err(e) => Err(e),
            },
        }
    }
}

/// One more element mapped.
pub proof fn lemma_all_ok_step<A, B>(xs: Seq<A>, i: int, f: spec_fn(A) -> Result<B, ErrView>)
    requires
        0 <= i < xs.len(),
    ensures
        all_ok(xs.take(i + 1), f) == match all_ok(xs.take(i), f) {
            Err(e) => Err(e),
            Ok(bs) => match f(xs[i]) {
                Ok(b) => Ok(bs.push(b)),
                Err(e) => Err(e),
            },
        },
{
    assert(xs.take(i + 1).drop_last() =~= xs.take(i));
}

/// Once a prefix fails, the whole fails the same way.
pub proof fn lemma_all_ok_err<A, B>(xs: Seq<A>, k: int, f: spec_fn(A) -> Result<B, ErrView>)
    requires
        0 <= k <= xs.len(),
        all_ok(xs.take(k), f) is Err,
    ensures
        all_ok(xs, f) == all_ok(xs.take(k), f),
    decreases xs.len() - k,
{
    if k == xs.len() {
        assert(xs.take(k) =~= xs);
    } else {
        lemma_all_ok_step(xs, k, f);
        lemma_all_ok_err(xs, k + 1, f);
    }
}

/// The index of the first name that already occurred before it, if any.
pub open spec fn first_dup(names: Seq<Seq<char>>) -> Option<int>
    decreases names.len(),
{
    if names.len() == 0 {
        None
    } else {
        match first_dup(names.drop_last()) {
            Some(i) => Some(i),
            None => if names.drop_last().contains(names.last()) {
                Some(names.len() - 1)
            } else {
                None
            },
        }
    }
}

/// A repeated name in a prefix is the first repeated name of the whole.
pub proof fn lemma_first_dup_prefix(names: Seq<Seq<char>>, k: int)
    requires
        0 <= k <= names.len(),
        first_dup(names.take(k)) is Some,
    ensures
        first_dup(names) == first_dup(names.take(k)),
    decreases names.len() - k,
{
    if k == names.len() {
        assert(names.take(k) =~= names);
    } else {
        assert(names.take(k + 1).drop_last() =~= names.take(k));
        lemma_first_dup_prefix(names, k + 1);
    }
}

// ---------------------------------------------------------------------------
// Variables and expressions
// ---------------------------------------------------------------------------

/// The value bound to `name`, by its first binding.
pub open spec fn lookup_var(vars: Seq<LetView>, name: Seq<char>) -> Option<ExprView>
    decreases vars.len(),
{
    if vars.len() == 0 {
        None
    } else if vars[0].0 == name {
        Some(vars[0].1)
    } else {
        lookup_var(vars.drop_first(), name)
    }
}

/// The variable table of the `let` declarations, or the error for the first
/// name bound twice.
pub open spec fn resolve_vars_spec(vars: Seq<LetView>) -> Result<Seq<LetView>, ErrView> {
    match first_dup(vars.map_values(|v: LetView| v.0)) {
        Some(i) => Err(err(
            ErrorKind::DuplicateDefinition,
            "variable "@ + tick(vars[i].0) + " is already defined"@,
            None,
            None,
        )),
        None => Ok(vars),
    }
}

/// An expression with a variable replaced by its value.
pub open spec fn resolve_expr(e: ExprView, vars: Seq<LetView>) -> Result<ExprView, ErrView> {
    match e {
        ExprView::Ident(name) => match lookup_var(vars, name) {
            Some(v) => Ok(v),
            None => Err(err(
                ErrorKind::UndefinedVariable,
                "undefined variable "@ + tick(name),
                None,
                Some("define it with `let "@ + name + " = ...`"@),
            )),
        },
        _ => Ok(e),
    }
}

/// The text `d` is a decimal number as a float reads it without exponent:
/// digits with at most one `.` (`12`, `1.5`, `.5`, `5.`).
pub open spec fn decimal_text(d: Seq<char>) -> bool {
    &&& forall|i: int| 0 <= i < d.len() ==> is_digit(#[trigger] d[i]) || d[i] == '.'
    &&& forall|i: int, j: int| 0 <= i < d.len() && 0 <= j < d.len() && d[i] == '.' && d[j] == '.' ==> i == j
}

/// The value in billionths of one field of an SMPTE timecode: a decimal
/// number with an optional `+` or `-` sign, its magnitude held as a `Fixed`
/// holds it (fractional digits past the ninth dropped, the largest `Fixed`
/// beyond its range); 0 for any other text, as for a field that does not
/// read as a number.
pub open spec fn smpte_part(p: Seq<char>) -> int {
    let signed = p.len() > 0 && (p[0] == '+' || p[0] == '-');
    let d = if signed { p.drop_first() } else { p };
    if decimal_text(d) {
        let v = sat_raw(decimal_raw(d)) as int;
        if p.len() > 0 && p[0] == '-' { -v } else { v }
    } else {
        0
    }
}

/// The seconds of an `HH:MM:SS:FF` timecode at `fps` frames per second:
/// hours, minutes and seconds, and the frames divided by `fps`, rounded
/// toward zero to nine decimals. At 0 fps a positive frame field lies past
/// every time, giving the largest `Fixed`, and a negative one before every
/// time, giving the smallest; a frame field of 0 then adds nothing.
pub open spec fn smpte_seconds(s: Seq<char>, fps: u32) -> Result<Fixed, ErrView> {
    let parts = split_on(s, ':');
    if parts.len() != 4 {
        Err(err(ErrorKind::InvalidTimeLiteral, "invalid SMPTE timecode "@ + tick(s), None, None))
    } else {
        let hms = smpte_part(parts[0]) * 3600 + smpte_part(parts[1]) * 60 + smpte_part(parts[2]);
        let f = smpte_part(parts[3]);
        if fps == 0 {
            if f > 0 {
                Ok(Fixed { raw: i64::MAX })
            } else if f < 0 {
                Ok(Fixed { raw: i64::MIN })
            } else {
                Ok(Fixed::of(hms))
            }
        } else {
            Ok(Fixed::of(hms + tdiv(f, fps as int)))
        }
    }
}

/// A time value in seconds. A frame count at 0 fps lies past every time
/// when positive, which gives the largest `Fixed`, and is no time when 0.
pub open spec fn to_seconds(e: ExprView, fps: u32, field: Seq<char>) -> Result<Fixed, ErrView> {
    match e {
        ExprView::TimeSec(v) => Ok(v),
        ExprView::TimeMs(v) => Ok(Fixed::of(tdiv(v.raw as int, 1000))),
        ExprView::TimeFrames(n) => if fps == 0 {
            Ok(if n > 0 { Fixed { raw: i64::MAX } } else { Fixed { raw: 0 } })
        } else {
            Ok(Fixed::of(n * SCALE / (fps as int)))
        },
        ExprView::Smpte(s) => smpte_seconds(s, fps),
        ExprView::IntLit(n) => Ok(Fixed::of(n * SCALE)),
        ExprView::FloatLit(v) => Ok(v),
        _ => Err(err(ErrorKind::TypeMismatch, tick(field) + " expects a time value (e.g. 3.5s, 500ms, 84f)"@, None, None)),
    }
}

/// A number.
pub open spec fn to_number(e: ExprView, field: Seq<char>) -> Result<Fixed, ErrView> {
    match e {
        ExprView::FloatLit(v) => Ok(v),
        ExprView::IntLit(n) => Ok(Fixed::of(n * SCALE)),
        _ => Err(err(ErrorKind::TypeMismatch, tick(field) + " expects a number"@, None, None)),
    }
}

/// A boolean.
pub open spec fn to_bool(e: ExprView, field: Seq<char>) -> Result<bool, ErrView> {
    match e {
        ExprView::BoolLit(b) => Ok(b),
        _ => Err(err(ErrorKind::TypeMismatch, tick(field) + " expects a boolean"@, None, None)),
    }
}

/// A non-negative integer, taken modulo 2^32 as `as u32` does.
pub open spec fn to_u32(e: ExprView, field: Seq<char>) -> Result<u32, ErrView> {
    match e {
        ExprView::IntLit(n) => if n >= 0 {
            Ok((n % 0x1_0000_0000) as u32)
        } else {
            Err(err(ErrorKind::InvalidValue, tick(field) + " must be positive, got "@ + int_text(n as int), None, None))
        },
        _ => Err(err(ErrorKind::TypeMismatch, tick(field) + " expects an integer"@, None, None)),
    }
}

/// A `"WIDTHxHEIGHT"` resolution.
pub open spec fn resolution_of(e: ExprView) -> Result<(u32, u32), ErrView> {
    match e {
        ExprView::StringLit(s) => {
            let parts = split_on(s, 'x');
            if parts.len() != 2 {
                Err(err(ErrorKind::InvalidValue, "invalid resolution "@ + tick(s) + ", expected `WIDTHxHEIGHT`"@, None, None))
            } else {
                match parse_u32_spec(parts[0]) {
                    None => Err(err(ErrorKind::InvalidValue, "invalid width in "@ + tick(s), None, None)),
                    Some(w) => match parse_u32_spec(parts[1]) {
                        None => Err(err(ErrorKind::InvalidValue, "invalid height in "@ + tick(s), None, None)),
                        Some(h) => Ok((w, h)),
                    },
                }
            }
        },
        _ => Err(err(ErrorKind::TypeMismatch, "resolution must be a string like \"1920x1080\""@, None, None)),
    }
}

/// The output format a name denotes.
pub open spec fn format_named(s: Seq<char>) -> Option<OutputFormat> {
    if s == "mp4"@ {
        Some(OutputFormat::Mp4)
    } else if s == "mkv"@ {
        Some(OutputFormat::Mkv)
    } else if s == "webm"@ {
        Some(OutputFormat::Webm)
    } else if s == "mov"@ {
        Some(OutputFormat::Mov)
    } else {
        None
    }
}

/// The codec a name denotes.
pub open spec fn codec_named(s: Seq<char>) -> Option<Codec> {
    if s == "h264"@ {
        Some(Codec::H264)
    } else if s == "h265"@ {
        Some(Codec::H265)
    } else if s == "vp9"@ {
        Some(Codec::Vp9)
    } else if s == "av1"@ {
        Some(Codec::Av1)
    } else {
        None
    }
}

/// The quality level a name denotes.
pub open spec fn quality_named(s: Seq<char>) -> Option<Quality> {
    if s == "low"@ {
        Some(Quality::Low)
    } else if s == "medium"@ {
        Some(Quality::Medium)
    } else if s == "high"@ {
        Some(Quality::High)
    } else if s == "lossless"@ {
        Some(Quality::Lossless)
    } else {
        None
    }
}

/// The fit mode a name denotes.
pub open spec fn fit_named(s: Seq<char>) -> Option<FitMode> {
    if s == "fill"@ {
        Some(FitMode::Fill)
    } else if s == "letterbox"@ {
        Some(FitMode::Letterbox)
    } else if s == "crop"@ {
        Some(FitMode::Crop)
    } else {
        None
    }
}

/// The position a name denotes.
pub open spec fn position_named(s: Seq<char>) -> Option<Position> {
    if s == "center"@ {
        Some(Position::Center)
    } else if s == "top-left"@ {
        Some(Position::TopLeft)
    } else if s == "top-right"@ {
        Some(Position::TopRight)
    } else if s == "bottom-left"@ {
        Some(Position::BottomLeft)
    } else if s == "bottom-right"@ {
        Some(Position::BottomRight)
    } else if s == "top"@ {
        Some(Position::Top)
    } else if s == "bottom"@ {
        Some(Position::Bottom)
    } else if s == "left"@ {
        Some(Position::Left)
    } else if s == "right"@ {
        Some(Position::Right)
    } else {
        None
    }
}

/// The format a string expression names.
pub open spec fn format_of(e: ExprView) -> Result<OutputFormat, ErrView> {
    match e {
        ExprView::StringLit(s) => match format_named(s) {
            Some(x) => Ok(x),
            None => Err(err(ErrorKind::InvalidValue, "unknown format "@ + tick(s), None, Some("supported: mp4, mkv, webm, mov"@))),
        },
        _ => Err(err(ErrorKind::TypeMismatch, "format must be a string"@, None, None)),
    }
}

/// The codec a string expression names.
pub open spec fn codec_of(e: ExprView) -> Result<Codec, ErrView> {
    match e {
        ExprView::StringLit(s) => match codec_named(s) {
            Some(x) => Ok(x),
            None => Err(err(ErrorKind::InvalidValue, "unknown codec "@ + tick(s), None, Some("supported: h264, h265, vp9, av1"@))),
        },
        _ => Err(err(ErrorKind::TypeMismatch, "codec must be a string"@, None, None)),
    }
}

/// The quality a string expression names.
pub open spec fn quality_of(e: ExprView) -> Result<Quality, ErrView> {
    match e {
        ExprView::StringLit(s) => match quality_named(s) {
            Some(x) => Ok(x),
            None => Err(err(ErrorKind::InvalidValue, "unknown quality "@ + tick(s), None, Some("supported: low, medium, high, lossless"@))),
        },
        _ => Err(err(ErrorKind::TypeMismatch, "quality must be a string"@, None, None)),
    }
}

/// The position a name denotes, or the error for an unknown one.
pub open spec fn position_of(s: Seq<char>) -> Result<Position, ErrView> {
    match position_named(s) {
        Some(p) => Ok(p),
        None => Err(err(
            ErrorKind::InvalidValue,
            "unknown position "@ + tick(s),
            None,
            Some("use: center, top-left, top-right, bottom-left, bottom-right, top, bottom, left, right"@),
        )),
    }
}

// ---------------------------------------------------------------------------
// Project and assets
// ---------------------------------------------------------------------------

/// The project settings before any attribute.
pub open spec fn project_init(name: Seq<char>) -> IrProjectView {
    IrProjectView {
        name,
        width: 1920,
        height: 1080,
        fps: 30,
        format: OutputFormat::Mp4,
        codec: Codec::H264,
        quality: Quality::High,
        fit: FitMode::Fill,
    }
}

/// The project settings after the attribute `key = v`.
pub open spec fn project_apply(st: IrProjectView, key: Seq<char>, v: ExprView) -> Result<IrProjectView, ErrView> {
    if key == "resolution"@ {
        match resolution_of(v) {
            Ok((w, h)) => Ok(IrProjectView { width: w, height: h, ..st }),
            Err(e) => Err(e),
        }
    } else if key == "fps"@ {
        match to_u32(v, "fps"@) {
            Ok(n) => Ok(IrProjectView { fps: n, ..st }),
            Err(e) => Err(e),
        }
    } else if key == "format"@ {
        match format_of(v) {
            Ok(f) => Ok(IrProjectView { format: f, ..st }),
            Err(e) => Err(e),
        }
    } else if key == "codec"@ {
        match codec_of(v) {
            Ok(c) => Ok(IrProjectView { codec: c, ..st }),
            Err(e) => Err(e),
        }
    } else if key == "quality"@ {
        match quality_of(v) {
            Ok(q) => Ok(IrProjectView { quality: q, ..st }),
            Err(e) => Err(e),
        }
    } else if key == "fit"@ {
        match v {
            ExprView::StringLit(s) => match fit_named(s) {
                Some(f) => Ok(IrProjectView { fit: f, ..st }),
                None => Err(err(ErrorKind::InvalidValue, "unknown fit mode "@ + tick(s), None, Some("supported: fill, letterbox, crop"@))),
            },
            _ => Ok(st),
        }
    } else {
        Ok(st)
    }
}

/// The resolved project of a `project` block.
pub open spec fn resolve_project_spec(decl: BlockView, vars: Seq<LetView>) -> Result<IrProjectView, ErrView> {
    fold_attrs(decl.1, project_init(decl.0), project_step(vars))
}

/// One attribute of the project block: its value resolved, then applied.
pub open spec fn project_step(vars: Seq<LetView>) -> spec_fn(IrProjectView, AttrView) -> Result<IrProjectView, ErrView> {
    |st: IrProjectView, a: AttrView|
        match resolve_expr(a.1, vars) {
            Ok(v) => project_apply(st, a.0, v),
            Err(e) => Err(e),
        }
}

pub open spec fn asset_ir_kind(k: AssetKind) -> IrAssetKind {
    match k {
        AssetKind::Video => IrAssetKind::Video,
        AssetKind::Audio => IrAssetKind::Audio,
        AssetKind::Image => IrAssetKind::Image,
    }
}

/// The resolved asset of a declaration, its path taken relative to `base`.
pub open spec fn asset_ir(base: Seq<char>, d: AssetView) -> IrAssetView {
    IrAssetView { name: d.0, kind: asset_ir_kind(d.1), path: join_path(base, d.2) }
}

/// The resolved assets, or the error for the first name declared twice.
pub open spec fn resolve_assets_spec(base: Seq<char>, decls: Seq<AssetView>) -> Result<Seq<IrAssetView>, ErrView> {
    match first_dup(decls.map_values(|d: AssetView| d.0)) {
        Some(i) => Err(err(ErrorKind::DuplicateDefinition, "duplicate asset name "@ + tick(decls[i].0), None, None)),
        None => Ok(decls.map_values(|d: AssetView| asset_ir(base, d))),
    }
}

/// The asset named `name`, by its first declaration.
pub open spec fn find_asset(assets: Seq<IrAssetView>, name: Seq<char>) -> Option<IrAssetView>
    decreases assets.len(),
{
    if assets.len() == 0 {
        None
    } else if assets[0].name == name {
        Some(assets[0])
    } else {
        find_asset(assets.drop_first(), name)
    }
}

/// The error for a reference to an asset that was never declared.
pub open spec fn undefined_asset(name: Seq<char>, kind_word: Seq<char>) -> ErrView {
    err(
        ErrorKind::UndefinedAsset,
        "undefined asset "@ + tick(name),
        None,
        Some("define it with `asset "@ + name + " = "@ + kind_word + "(\"path\")`"@),
    )
}

// ---------------------------------------------------------------------------
// Clips
// ---------------------------------------------------------------------------

/// A message about the clip `name`.
pub open spec fn clip_msg(name: Seq<char>, rest: Seq<char>) -> Seq<char> {
    "clip "@ + tick(name) + ": "@ + rest
}

/// `v` when it lies within `[min, max]`, else the clip's range error.
pub open spec fn range_check(v: Fixed, min: int, max: int, name: Seq<char>, field: Seq<char>) -> Result<Fixed, ErrView> {
    if min <= v.raw && v.raw <= max {
        Ok(v)
    } else {
        Err(err(
            ErrorKind::InvalidValue,
            clip_msg(name, field + " "@ + fixed_text(v.raw as int) + " is out of range, must be "@ + fixed_text(min) + " to "@
                + fixed_text(max)),
            None,
            None,
        ))
    }
}

/// `v` when it is above `min`, else the clip's bound error.
pub open spec fn gt_check(v: Fixed, min: int, name: Seq<char>, field: Seq<char>) -> Result<Fixed, ErrView> {
    if v.raw > min {
        Ok(v)
    } else {
        Err(err(
            ErrorKind::InvalidValue,
            clip_msg(name, field + " must be > "@ + fixed_text(min) + ", got "@ + fixed_text(v.raw as int)),
            None,
            None,
        ))
    }
}

/// A number checked to lie within `[min, max]`.
pub open spec fn ranged(e: ExprView, min: int, max: int, name: Seq<char>, field: Seq<char>) -> Result<Fixed, ErrView> {
    match to_number(e, field) {
        Ok(x) => range_check(x, min, max, name, field),
        Err(err) => Err(err),
    }
}

/// The clip after a timing or sound attribute `key = v`; `None` for other keys.
pub open spec fn clip_apply_timing(st: IrClipView, key: Seq<char>, v: ExprView, fps: u32) -> Option<Result<IrClipView, ErrView>> {
    if key == "from"@ {
        Some(match to_seconds(v, fps, "from"@) {
            Ok(x) => Ok(IrClipView { from_sec: Some(x), ..st }),
            Err(e) => Err(e),
        })
    } else if key == "to"@ {
        Some(match to_seconds(v, fps, "to"@) {
            Ok(x) => Ok(IrClipView { to_sec: Some(x), ..st }),
            Err(e) => Err(e),
        })
    } else if key == "duration"@ {
        Some(match to_seconds(v, fps, "duration"@) {
            Ok(x) => Ok(IrClipView { duration_sec: Some(x), ..st }),
            Err(e) => Err(e),
        })
    } else if key == "fade_in"@ {
        Some(match to_seconds(v, fps, "fade_in"@) {
            Ok(x) => Ok(IrClipView { fade_in_sec: Some(x), ..st }),
            Err(e) => Err(e),
        })
    } else if key == "fade_out"@ {
        Some(match to_seconds(v, fps, "fade_out"@) {
            Ok(x) => Ok(IrClipView { fade_out_sec: Some(x), ..st }),
            Err(e) => Err(e),
        })
    } else if key == "volume"@ {
        Some(match to_number(v, "volume"@) {
            Ok(x) => Ok(IrClipView { volume: Some(x), ..st }),
            Err(e) => Err(e),
        })
    } else if key == "speed"@ {
        Some(match to_number(v, "speed"@) {
            Ok(x) => Ok(IrClipView { speed: Some(x), ..st }),
            Err(e) => Err(e),
        })
    } else if key == "brightness"@ {
        Some(match to_number(v, "brightness"@) {
            Ok(x) => Ok(IrClipView { brightness: Some(x), ..st }),
            Err(e) => Err(e),
        })
    } else if key == "contrast"@ {
        Some(match to_number(v, "contrast"@) {
            Ok(x) => Ok(IrClipView { contrast: Some(x), ..st }),
            Err(e) => Err(e),
        })
    } else if key == "saturation"@ {
        Some(match to_number(v, "saturation"@) {
            Ok(x) => Ok(IrClipView { saturation: Some(x), ..st }),
            Err(e) => Err(e),
        })
    } else if key == "rotate"@ {
        Some(match to_number(v, "rotate"@) {
            Ok(x) => Ok(IrClipView { rotate: Some(x), ..st }),
            Err(e) => Err(e),
        })
    } else {
        None
    }
}

/// The clip after a range-checked attribute `key = v` of the clip `name`;
/// `None` for other keys.
pub open spec fn clip_apply_ranged(st: IrClipView, key: Seq<char>, v: ExprView, name: Seq<char>) -> Option<Result<IrClipView, ErrView>> {
    if key == "zoom"@ {
        Some(match ranged(v, 1000000000, 10000000000, name, "zoom"@) {
            Ok(x) => Ok(IrClipView { zoom: Some(x), ..st }),
            Err(e) => Err(e),
        })
    } else if key == "blur"@ {
        Some(match ranged(v, 0, 100000000000, name, "blur"@) {
            Ok(x) => Ok(IrClipView { blur: Some(x), ..st }),
            Err(e) => Err(e),
        })
    } else if key == "opacity"@ {
        Some(match ranged(v, 0, 1000000000, name, "opacity"@) {
            Ok(x) => Ok(IrClipView { opacity: Some(x), ..st }),
            Err(e) => Err(e),
        })
    } else if key == "vignette"@ {
        Some(match ranged(v, 0, 1000000000, name, "vignette"@) {
            Ok(x) => Ok(IrClipView { vignette: Some(x), ..st }),
            Err(e) => Err(e),
        })
    } else if key == "grain"@ {
        Some(match ranged(v, 0, 1000000000, name, "grain"@) {
            Ok(x) => Ok(IrClipView { grain: Some(x), ..st }),
            Err(e) => Err(e),
        })
    } else if key == "pan_x"@ {
        Some(match ranged(v, -1000000000, 1000000000, name, "pan_x"@) {
            Ok(x) => Ok(IrClipView { pan_x: Some(x), ..st }),
            Err(e) => Err(e),
        })
    } else if key == "pan_y"@ {
        Some(match ranged(v, -1000000000, 1000000000, name, "pan_y"@) {
            Ok(x) => Ok(IrClipView { pan_y: Some(x), ..st }),
            Err(e) => Err(e),
        })
    } else if key == "sharpen"@ {
        Some(match to_number(v, "sharpen"@) {
            Ok(x) => match gt_check(x, 0, name, "sharpen"@) {
                Ok(y) => Ok(IrClipView { sharpen: Some(y), ..st }),
                Err(e) => Err(e),
            },
            Err(e) => Err(e),
        })
    } else {
        None
    }
}

/// The clip after a text attribute `key = v` (crop, flip, chroma key) of
/// the clip `name`; `None` for other keys.
pub open spec fn clip_apply_text(st: IrClipView, key: Seq<char>, v: ExprView, name: Seq<char>) -> Option<Result<IrClipView, ErrView>> {
    if key == "crop"@ {
        Some(match v {
            ExprView::StringLit(s) => if s.contains('x') && s.contains('+') {
                Ok(IrClipView { crop: Some(s), ..st })
            } else {
                Err(err(
                    ErrorKind::InvalidValue,
                    clip_msg(name, "crop must be in WxH+X+Y format, got "@ + tick(s)),
                    None,
                    Some("example: crop = \"640x480+100+50\""@),
                ))
            },
            _ => Ok(st),
        })
    } else if key == "flip"@ {
        Some(match v {
            ExprView::StringLit(s) => if s == "horizontal"@ || s == "vertical"@ || s == "both"@ {
                Ok(IrClipView { flip: Some(s), ..st })
            } else {
                Err(err(
                    ErrorKind::InvalidValue,
                    clip_msg(name, "unknown flip mode "@ + tick(s)),
                    None,
                    Some("supported: horizontal, vertical, both"@),
                ))
            },
            _ => Ok(st),
        })
    } else if key == "chromakey"@ {
        Some(match v {
            ExprView::StringLit(s) => Ok(IrClipView { chromakey: Some(s), ..st }),
            ExprView::ColorLit(c) => Ok(IrClipView { chromakey: Some(seq!['#'] + c), ..st }),
            _ => Err(err(
                ErrorKind::TypeMismatch,
                clip_msg(name, "chromakey expects a color or string"@),
                None,
                Some("example: chromakey = \"green\" or chromakey = #00FF00"@),
            )),
        })
    } else {
        None
    }
}

/// The clip after a switch or count attribute `key = v` of the clip
/// `name`; unchanged for a key that no clip setting has.
pub open spec fn clip_apply_flag(st: IrClipView, key: Seq<char>, v: ExprView, name: Seq<char>) -> Result<IrClipView, ErrView> {
    if key == "reverse"@ {
        match to_bool(v, "reverse"@) {
            Ok(b) => Ok(IrClipView { reverse: Some(b), ..st }),
            Err(e) => Err(e),
        }
    } else if key == "normalize"@ {
        match to_bool(v, "normalize"@) {
            Ok(b) => Ok(IrClipView { normalize: Some(b), ..st }),
            Err(e) => Err(e),
        }
    } else if key == "stabilize"@ {
        match to_bool(v, "stabilize"@) {
            Ok(b) => Ok(IrClipView { stabilize: Some(b), ..st }),
            Err(e) => Err(e),
        }
    } else if key == "loop"@ {
        match to_u32(v, "loop"@) {
            Ok(n) => if n == 0 {
                Err(err(ErrorKind::InvalidValue, clip_msg(name, "loop count must be >= 1"@), None, None))
            } else {
                Ok(IrClipView { loop_count: Some(n), ..st })
            },
            Err(e) => Err(e),
        }
    } else {
        Ok(st)
    }
}

/// The clip after an effect attribute `key = v` of the clip `name`.
pub open spec fn clip_apply_effect(st: IrClipView, key: Seq<char>, v: ExprView, name: Seq<char>) -> Result<IrClipView, ErrView> {
    match clip_apply_ranged(st, key, v, name) {
        Some(r) => r,
        None => match clip_apply_text(st, key, v, name) {
            Some(r) => r,
            None => clip_apply_flag(st, key, v, name),
        },
    }
}

/// The clip after the attribute `key = v` of the clip `name`.
#[verifier::opaque]
pub open spec fn clip_apply(st: IrClipView, key: Seq<char>, v: ExprView, fps: u32, name: Seq<char>) -> Result<IrClipView, ErrView> {
    match clip_apply_timing(st, key, v, fps) {
        Some(r) => r,
        None => clip_apply_effect(st, key, v, name),
    }
}

/// The checks made on a clip once all its attributes are read.
#[verifier::opaque]
pub open spec fn clip_post(c: IrClipView, name: Seq<char>) -> Result<IrClipView, ErrView> {
    if c.from_sec is Some && c.to_sec is Some && c.from_sec->0.raw >= c.to_sec->0.raw {
        Err(err(
            ErrorKind::InvalidTimeRange,
            clip_msg(name, "`from` ("@ + fixed_text(c.from_sec->0.raw as int) + "s) must be less than `to` ("@
                + fixed_text(c.to_sec->0.raw as int) + "s)"@),
            None,
            None,
        ))
    } else if c.volume is Some && range_check(c.volume->0, 0, 1_000_000_000, name, "volume"@) is Err {
        Err(range_check(c.volume->0, 0, 1_000_000_000, name, "volume"@)->Err_0)
    } else if c.speed is Some && (c.speed->0.raw <= 0 || c.speed->0.raw > 100_000_000_000) {
        Err(err(
            ErrorKind::InvalidValue,
            clip_msg(name, "speed "@ + fixed_text(c.speed->0.raw as int)
                + " is out of range, must be > 0.0 and <= 100.0"@),
            None,
            None,
        ))
    } else if c.brightness is Some && range_check(c.brightness->0, -1_000_000_000, 1_000_000_000, name, "brightness"@) is Err {
        Err(range_check(c.brightness->0, -1_000_000_000, 1_000_000_000, name, "brightness"@)->Err_0)
    } else if c.contrast is Some && range_check(c.contrast->0, 0, 3_000_000_000, name, "contrast"@) is Err {
        Err(range_check(c.contrast->0, 0, 3_000_000_000, name, "contrast"@)->Err_0)
    } else if c.saturation is Some && range_check(c.saturation->0, 0, 3_000_000_000, name, "saturation"@) is Err {
        Err(range_check(c.saturation->0, 0, 3_000_000_000, name, "saturation"@)->Err_0)
    } else {
        Ok(c)
    }
}

/// The attributes of the clip `name` folded from `init`.
pub open spec fn clip_fold(attrs: Seq<AttrView>, init: IrClipView, vars: Seq<LetView>, fps: u32, name: Seq<char>) -> Result<IrClipView, ErrView> {
    fold_attrs(attrs, init, clip_step(vars, fps, name))
}

/// One attribute of the clip `name`: its value resolved, then applied.
pub open spec fn clip_step(vars: Seq<LetView>, fps: u32, name: Seq<char>) -> spec_fn(IrClipView, AttrView) -> Result<IrClipView, ErrView> {
    |st: IrClipView, a: AttrView|
        match resolve_expr(a.1, vars) {
            Ok(v) => clip_apply(st, a.0, v, fps, name),
            Err(e) => Err(e),
        }
}

/// The resolved clip of a `clip` block.
pub open spec fn resolve_clip_spec(decl: BlockView, assets: Seq<IrAssetView>, vars: Seq<LetView>, fps: u32) -> Result<IrClipView, ErrView> {
    match find_asset(assets, decl.0) {
        None => Err(undefined_asset(decl.0, "video"@)),
        Some(a) => match clip_fold(decl.1, default_clip(a.name, a.path, a.kind), vars, fps, decl.0) {
            Ok(c) => clip_post(c, decl.0),
            Err(e) => Err(e),
        },
    }
}


// ---------------------------------------------------------------------------
// Text overlays
// ---------------------------------------------------------------------------

/// A text overlay before any attribute.
pub open spec fn text_init(content: Seq<char>) -> IrTextOverlayView {
    IrTextOverlayView {
        content,
        at_sec: Fixed { raw: 0 },
        duration_sec: Fixed { raw: 5_000_000_000 },
        font: "Arial"@,
        size: 24,
        color: "FFFFFF"@,
        position: Position::Center,
        fade_in_sec: None,
        fade_out_sec: None,
    }
}

/// The text overlay after the attribute `key = v`.
#[verifier::opaque]
pub open spec fn text_apply(st: IrTextOverlayView, key: Seq<char>, v: ExprView, fps: u32) -> Result<IrTextOverlayView, ErrView> {
    if key == "at"@ {
        match to_seconds(v, fps, "at"@) {
            Ok(x) => Ok(IrTextOverlayView { at_sec: x, ..st }),
            Err(e) => Err(e),
        }
    } else if key == "duration"@ {
        match to_seconds(v, fps, "duration"@) {
            Ok(x) => Ok(IrTextOverlayView { duration_sec: x, ..st }),
            Err(e) => Err(e),
        }
    } else if key == "font"@ {
        match v {
            ExprView::StringLit(s) => Ok(IrTextOverlayView { font: s, ..st }),
            _ => Ok(st),
        }
    } else if key == "size"@ {
        match to_u32(v, "size"@) {
            Ok(n) => Ok(IrTextOverlayView { size: n, ..st }),
            Err(e) => Err(e),
        }
    } else if key == "color"@ {
        match v {
            ExprView::ColorLit(c) => Ok(IrTextOverlayView { color: c, ..st }),
            ExprView::StringLit(c) => Ok(IrTextOverlayView { color: trim_start(c, '#'), ..st }),
            _ => Ok(st),
        }
    } else if key == "position"@ {
        match v {
            ExprView::StringLit(s) => match position_of(s) {
                Ok(p) => Ok(IrTextOverlayView { position: p, ..st }),
                Err(e) => Err(e),
            },
            _ => Ok(st),
        }
    } else if key == "fade_in"@ {
        match to_seconds(v, fps, "fade_in"@) {
            Ok(x) => Ok(IrTextOverlayView { fade_in_sec: Some(x), ..st }),
            Err(e) => Err(e),
        }
    } else if key == "fade_out"@ {
        match to_seconds(v, fps, "fade_out"@) {
            Ok(x) => Ok(IrTextOverlayView { fade_out_sec: Some(x), ..st }),
            Err(e) => Err(e),
        }
    } else {
        Ok(st)
    }
}

/// One attribute of a text overlay: its value resolved, then applied.
pub open spec fn text_step(vars: Seq<LetView>, fps: u32) -> spec_fn(IrTextOverlayView, AttrView) -> Result<IrTextOverlayView, ErrView> {
    |st: IrTextOverlayView, a: AttrView|
        match resolve_expr(a.1, vars) {
            Ok(v) => text_apply(st, a.0, v, fps),
            Err(e) => Err(e),
        }
}

/// The resolved text overlay of a `text` block.
pub open spec fn resolve_text_spec(decl: BlockView, vars: Seq<LetView>, fps: u32) -> Result<IrTextOverlayView, ErrView> {
    fold_attrs(decl.1, text_init(decl.0), text_step(vars, fps))
}

// ---------------------------------------------------------------------------
// Image overlays
// ---------------------------------------------------------------------------

/// An image overlay of the asset `a` before any attribute.
pub open spec fn image_init(a: IrAssetView) -> IrImageOverlayView {
    IrImageOverlayView {
        asset_name: a.name,
        asset_path: a.path,
        at_sec: Fixed { raw: 0 },
        duration_sec: Fixed { raw: 5_000_000_000 },
        position: Position::TopRight,
        scale: None,
        opacity: None,
    }
}

/// The image overlay after the attribute `key = v`.
#[verifier::opaque]
pub open spec fn image_apply(st: IrImageOverlayView, key: Seq<char>, v: ExprView, fps: u32) -> Result<IrImageOverlayView, ErrView> {
    if key == "at"@ {
        match to_seconds(v, fps, "at"@) {
            Ok(x) => Ok(IrImageOverlayView { at_sec: x, ..st }),
            Err(e) => Err(e),
        }
    } else if key == "duration"@ {
        match to_seconds(v, fps, "duration"@) {
            Ok(x) => Ok(IrImageOverlayView { duration_sec: x, ..st }),
            Err(e) => Err(e),
        }
    } else if key == "position"@ {
        match v {
            ExprView::StringLit(s) => match position_of(s) {
                Ok(p) => Ok(IrImageOverlayView { position: p, ..st }),
                Err(e) => Err(e),
            },
            _ => Ok(st),
        }
    } else if key == "scale"@ {
        match to_number(v, "scale"@) {
            Ok(x) => if 0 <= x.raw && x.raw <= 10_000_000_000 {
                Ok(IrImageOverlayView { scale: Some(x), ..st })
            } else {
                Err(err(
                    ErrorKind::InvalidValue,
                    "scale "@ + fixed_text(x.raw as int) + " is out of range, must be 0.0 to 10.0"@,
                    None,
                    None,
                ))
            },
            Err(e) => Err(e),
        }
    } else if key == "opacity"@ {
        match to_number(v, "opacity"@) {
            Ok(x) => if 0 <= x.raw && x.raw <= 1_000_000_000 {
                Ok(IrImageOverlayView { opacity: Some(x), ..st })
            } else {
                Err(err(
                    ErrorKind::InvalidValue,
                    "opacity "@ + fixed_text(x.raw as int) + " is out of range, must be 0.0 to 1.0"@,
                    None,
                    None,
                ))
            },
            Err(e) => Err(e),
        }
    } else {
        Ok(st)
    }
}

/// One attribute of an image overlay: its value resolved, then applied.
pub open spec fn image_step(vars: Seq<LetView>, fps: u32) -> spec_fn(IrImageOverlayView, AttrView) -> Result<IrImageOverlayView, ErrView> {
    |st: IrImageOverlayView, a: AttrView|
        match resolve_expr(a.1, vars) {
            Ok(v) => image_apply(st, a.0, v, fps),
            Err(e) => Err(e),
        }
}

/// The resolved image overlay of an `image` block.
pub open spec fn resolve_image_spec(decl: BlockView, assets: Seq<IrAssetView>, vars: Seq<LetView>, fps: u32) -> Result<IrImageOverlayView, ErrView> {
    match find_asset(assets, decl.0) {
        None => Err(undefined_asset(decl.0, "image"@)),
        Some(a) => fold_attrs(decl.1, image_init(a), image_step(vars, fps)),
    }
}

// ---------------------------------------------------------------------------
// Transitions, gaps, freeze frames and picture-in-picture
// ---------------------------------------------------------------------------

/// The transition after the attribute `key = v`.
#[verifier::opaque]
pub open spec fn transition_apply(st: IrTransition, key: Seq<char>, v: ExprView, fps: u32) -> Result<IrTransition, ErrView> {
    if key == "type"@ {
        match v {
            ExprView::StringLit(s) => match transition_named(s) {
                Some(k) => Ok(IrTransition { kind: k, ..st }),
                None => Err(err(ErrorKind::InvalidValue, "unknown transition type "@ + tick(s), None, Some(transition_hint()))),
            },
            _ => Ok(st),
        }
    } else if key == "duration"@ {
        match to_seconds(v, fps, "duration"@) {
            Ok(x) => Ok(IrTransition { duration_sec: x, ..st }),
            Err(e) => Err(e),
        }
    } else {
        Ok(st)
    }
}

/// The list of transition names offered when one is unknown.
pub open spec fn transition_hint() -> Seq<char> {
    "supported: fade, fadeblack, fadewhite, dissolve, wipe-left, wipe-right, wipe-up, wipe-down, slide-left, slide-right, slide-up, slide-down, zoom-in, smooth-left, smooth-right, smooth-up, smooth-down, squeeze-h, squeeze-v, circlecrop, pixelize"@
}

/// One attribute of a transition: its value resolved, then applied.
pub open spec fn transition_step(vars: Seq<LetView>, fps: u32) -> spec_fn(IrTransition, AttrView) -> Result<IrTransition, ErrView> {
    |st: IrTransition, a: AttrView|
        match resolve_expr(a.1, vars) {
            Ok(v) => transition_apply(st, a.0, v, fps),
            Err(e) => Err(e),
        }
}

/// The resolved transition of a `transition` block: a fade of one second
/// unless its attributes say otherwise.
pub open spec fn resolve_transition_spec(attrs: Seq<AttrView>, vars: Seq<LetView>, fps: u32) -> Result<IrTransition, ErrView> {
    fold_attrs(attrs, IrTransition { kind: TransitionKind::Fade, duration_sec: Fixed { raw: 1_000_000_000 } }, transition_step(vars, fps))
}

/// The gap after the attribute `key = v`.
#[verifier::opaque]
pub open spec fn gap_apply(st: IrGap, key: Seq<char>, v: ExprView, fps: u32) -> Result<IrGap, ErrView> {
    if key == "duration"@ {
        match to_seconds(v, fps, "duration"@) {
            Ok(x) => Ok(IrGap { duration_sec: x, ..st }),
            Err(e) => Err(e),
        }
    } else {
        Ok(st)
    }
}

/// One attribute of a gap: its value resolved, then applied.
pub open spec fn gap_step(vars: Seq<LetView>, fps: u32) -> spec_fn(IrGap, AttrView) -> Result<IrGap, ErrView> {
    |st: IrGap, a: AttrView|
        match resolve_expr(a.1, vars) {
            Ok(v) => gap_apply(st, a.0, v, fps),
            Err(e) => Err(e),
        }
}

/// The resolved gap of a `gap` block: one second unless its attributes say
/// otherwise.
pub open spec fn resolve_gap_spec(attrs: Seq<AttrView>, vars: Seq<LetView>, fps: u32) -> Result<IrGap, ErrView> {
    fold_attrs(attrs, IrGap { duration_sec: Fixed { raw: 1_000_000_000 } }, gap_step(vars, fps))
}

/// A freeze frame of the asset `a` before any attribute.
pub open spec fn freeze_init(a: IrAssetView) -> IrFreezeView {
    IrFreezeView { asset_name: a.name, asset_path: a.path, at_sec: Fixed { raw: 0 }, duration_sec: Fixed { raw: 1_000_000_000 } }
}

/// The freeze frame after the attribute `key = v`.
#[verifier::opaque]
pub open spec fn freeze_apply(st: IrFreezeView, key: Seq<char>, v: ExprView, fps: u32) -> Result<IrFreezeView, ErrView> {
    if key == "at"@ {
        match to_seconds(v, fps, "at"@) {
            Ok(x) => Ok(IrFreezeView { at_sec: x, ..st }),
            Err(e) => Err(e),
        }
    } else if key == "duration"@ {
        match to_seconds(v, fps, "duration"@) {
            Ok(x) => Ok(IrFreezeView { duration_sec: x, ..st }),
            Err(e) => Err(e),
        }
    } else {
        Ok(st)
    }
}

/// One attribute of a freeze frame: its value resolved, then applied.
pub open spec fn freeze_step(vars: Seq<LetView>, fps: u32) -> spec_fn(IrFreezeView, AttrView) -> Result<IrFreezeView, ErrView> {
    |st: IrFreezeView, a: AttrView|
        match resolve_expr(a.1, vars) {
            Ok(v) => freeze_apply(st, a.0, v, fps),
            Err(e) => Err(e),
        }
}

/// The resolved freeze frame of a `freeze` block.
pub open spec fn resolve_freeze_spec(decl: BlockView, assets: Seq<IrAssetView>, vars: Seq<LetView>, fps: u32) -> Result<IrFreezeView, ErrView> {
    match find_asset(assets, decl.0) {
        None => Err(undefined_asset(decl.0, "video"@)),
        Some(a) => fold_attrs(decl.1, freeze_init(a), freeze_step(vars, fps)),
    }
}

/// A picture-in-picture of the asset `a` before any attribute.
pub open spec fn pip_init(a: IrAssetView) -> IrPipView {
    IrPipView {
        asset_name: a.name,
        asset_path: a.path,
        from_sec: None,
        to_sec: None,
        at_sec: Fixed { raw: 0 },
        duration_sec: Fixed { raw: 5_000_000_000 },
        position: Position::BottomRight,
        scale: Fixed { raw: 250_000_000 },
    }
}

/// The picture-in-picture after the attribute `key = v`.
#[verifier::opaque]
pub open spec fn pip_apply(st: IrPipView, key: Seq<char>, v: ExprView, fps: u32) -> Result<IrPipView, ErrView> {
    if key == "from"@ {
        match to_seconds(v, fps, "from"@) {
            Ok(x) => Ok(IrPipView { from_sec: Some(x), ..st }),
            Err(e) => Err(e),
        }
    } else if key == "to"@ {
        match to_seconds(v, fps, "to"@) {
            Ok(x) => Ok(IrPipView { to_sec: Some(x), ..st }),
            Err(e) => Err(e),
        }
    } else if key == "at"@ {
        match to_seconds(v, fps, "at"@) {
            Ok(x) => Ok(IrPipView { at_sec: x, ..st }),
            Err(e) => Err(e),
        }
    } else if key == "duration"@ {
        match to_seconds(v, fps, "duration"@) {
            Ok(x) => Ok(IrPipView { duration_sec: x, ..st }),
            Err(e) => Err(e),
        }
    } else if key == "position"@ {
        match v {
            ExprView::StringLit(s) => match position_of(s) {
                Ok(p) => Ok(IrPipView { position: p, ..st }),
                Err(e) => Err(e),
            },
            _ => Ok(st),
        }
    } else if key == "scale"@ {
        match to_number(v, "scale"@) {
            Ok(x) => Ok(IrPipView { scale: x, ..st }),
            Err(e) => Err(e),
        }
    } else {
        Ok(st)
    }
}

/// One attribute of a picture-in-picture: its value resolved, then applied.
pub open spec fn pip_step(vars: Seq<LetView>, fps: u32) -> spec_fn(IrPipView, AttrView) -> Result<IrPipView, ErrView> {
    |st: IrPipView, a: AttrView|
        match resolve_expr(a.1, vars) {
            Ok(v) => pip_apply(st, a.0, v, fps),
            Err(e) => Err(e),
        }
}

/// The resolved picture-in-picture of a `pip` block.
pub open spec fn resolve_pip_spec(decl: BlockView, assets: Seq<IrAssetView>, vars: Seq<LetView>, fps: u32) -> Result<IrPipView, ErrView> {
    match find_asset(assets, decl.0) {
        None => Err(undefined_asset(decl.0, "video"@)),
        Some(a) => fold_attrs(decl.1, pip_init(a), pip_step(vars, fps)),
    }
}

// ---------------------------------------------------------------------------
// Outputs
// ---------------------------------------------------------------------------

/// An output to `path`, relative to `base`, before any attribute.
pub open spec fn output_init(base: Seq<char>, path: Seq<char>) -> IrOutputConfigView {
    IrOutputConfigView { path: join_path(base, path), width: None, height: None, format: None, codec: None, quality: None }
}

/// The output after the attribute `key = v`.
#[verifier::opaque]
pub open spec fn output_apply(st: IrOutputConfigView, key: Seq<char>, v: ExprView) -> Result<IrOutputConfigView, ErrView> {
    if key == "resolution"@ {
        match resolution_of(v) {
            Ok((w, h)) => Ok(IrOutputConfigView { width: Some(w), height: Some(h), ..st }),
            Err(e) => Err(e),
        }
    } else if key == "format"@ {
        match format_of(v) {
            Ok(f) => Ok(IrOutputConfigView { format: Some(f), ..st }),
            Err(e) => Err(e),
        }
    } else if key == "codec"@ {
        match codec_of(v) {
            Ok(c) => Ok(IrOutputConfigView { codec: Some(c), ..st }),
            Err(e) => Err(e),
        }
    } else if key == "quality"@ {
        match quality_of(v) {
            Ok(q) => Ok(IrOutputConfigView { quality: Some(q), ..st }),
            Err(e) => Err(e),
        }
    } else {
        Ok(st)
    }
}

/// One attribute of an output: its value resolved, then applied.
pub open spec fn output_step(vars: Seq<LetView>) -> spec_fn(IrOutputConfigView, AttrView) -> Result<IrOutputConfigView, ErrView> {
    |st: IrOutputConfigView, a: AttrView|
        match resolve_expr(a.1, vars) {
            Ok(v) => output_apply(st, a.0, v),
            Err(e) => Err(e),
        }
}

/// The resolved output of an `output` block.
pub open spec fn resolve_output_spec(base: Seq<char>, decl: BlockView, vars: Seq<LetView>) -> Result<IrOutputConfigView, ErrView> {
    fold_attrs(decl.1, output_init(base, decl.0), output_step(vars))
}

/// Each `output` block resolved in turn.
pub open spec fn output_fn(base: Seq<char>, vars: Seq<LetView>) -> spec_fn(BlockView) -> Result<IrOutputConfigView, ErrView> {
    |d: BlockView| resolve_output_spec(base, d, vars)
}

/// The resolved outputs, or the first error among them.
pub open spec fn resolve_outputs_spec(base: Seq<char>, outs: Seq<BlockView>, vars: Seq<LetView>) -> Result<Seq<IrOutputConfigView>, ErrView> {
    all_ok(outs, output_fn(base, vars))
}

// ---------------------------------------------------------------------------
// Timeline and program
// ---------------------------------------------------------------------------

/// The resolved form of one track item.
pub open spec fn item_spec(it: ItemView, base: Seq<char>, assets: Seq<IrAssetView>, vars: Seq<LetView>, fps: u32) -> Result<IrItemView, ErrView> {
    match it {
        ItemView::Clip(b) => match resolve_clip_spec(b, assets, vars, fps) {
            Ok(c) => Ok(IrItemView::Clip(c)),
            Err(e) => Err(e),
        },
        ItemView::TextOverlay(b) => match resolve_text_spec(b, vars, fps) {
            Ok(t) => Ok(IrItemView::TextOverlay(t)),
            Err(e) => Err(e),
        },
        ItemView::Transition(a) => match resolve_transition_spec(a, vars, fps) {
            Ok(t) => Ok(IrItemView::Transition(t)),
            Err(e) => Err(e),
        },
        ItemView::ImageOverlay(b) => match resolve_image_spec(b, assets, vars, fps) {
            Ok(i) => Ok(IrItemView::ImageOverlay(i)),
            Err(e) => Err(e),
        },
        ItemView::Gap(a) => match resolve_gap_spec(a, vars, fps) {
            Ok(g) => Ok(IrItemView::Gap(g)),
            Err(e) => Err(e),
        },
        ItemView::Freeze(b) => match resolve_freeze_spec(b, assets, vars, fps) {
            Ok(f) => Ok(IrItemView::Freeze(f)),
            Err(e) => Err(e),
        },
        ItemView::Pip(b) => match resolve_pip_spec(b, assets, vars, fps) {
            Ok(p) => Ok(IrItemView::Pip(p)),
            Err(e) => Err(e),
        },
        ItemView::Subtitle(b) => Ok(IrItemView::Subtitle(join_path(base, b.0))),
    }
}

/// Each track item resolved in turn.
pub open spec fn item_fn(base: Seq<char>, assets: Seq<IrAssetView>, vars: Seq<LetView>, fps: u32) -> spec_fn(ItemView) -> Result<IrItemView, ErrView> {
    |it: ItemView| item_spec(it, base, assets, vars, fps)
}

pub open spec fn ir_track_kind(k: TrackKind) -> IrTrackKind {
    match k {
        TrackKind::Video => IrTrackKind::Video,
        TrackKind::Audio => IrTrackKind::Audio,
        TrackKind::Text => IrTrackKind::Text,
        TrackKind::Overlay => IrTrackKind::Overlay,
    }
}

/// The resolved form of one track.
pub open spec fn track_spec(t: TrackView, base: Seq<char>, assets: Seq<IrAssetView>, vars: Seq<LetView>, fps: u32) -> Result<IrTrackView, ErrView> {
    match all_ok(t.1, item_fn(base, assets, vars, fps)) {
        Ok(items) => Ok((ir_track_kind(t.0), items)),
        Err(e) => Err(e),
    }
}

/// Each track resolved in turn.
pub open spec fn track_fn(base: Seq<char>, assets: Seq<IrAssetView>, vars: Seq<LetView>, fps: u32) -> spec_fn(TrackView) -> Result<IrTrackView, ErrView> {
    |t: TrackView| track_spec(t, base, assets, vars, fps)
}

/// The resolved timeline.
pub open spec fn timeline_spec(tl: TimelineView, base: Seq<char>, assets: Seq<IrAssetView>, vars: Seq<LetView>, fps: u32) -> Result<IrTimelineView, ErrView> {
    match all_ok(tl.1, track_fn(base, assets, vars, fps)) {
        Ok(tracks) => Ok((tl.0, tracks)),
        Err(e) => Err(e),
    }
}

/// The validated program: the project, then variables, project settings,
/// assets, the first timeline and the outputs, each resolved in turn and
/// the first error deciding the result.
pub open spec fn analyze_spec(base: Seq<char>, p: ProgramView) -> Result<IrProgramView, ErrView> {
    match p.project {
        None => Err(err(
            ErrorKind::NoProject,
            "missing `project` declaration"@,
            None,
            Some("add a `project \"name\" { ... }` block at the top of the file"@),
        )),
        Some(pd) => if p.timelines.len() == 0 {
            Err(err(ErrorKind::NoTimeline, "no `timeline` declaration found"@, None, Some("add a `timeline main { ... }` block"@)))
        } else {
            match resolve_vars_spec(p.variables) {
                Err(e) => Err(e),
                Ok(vars) => match resolve_project_spec(pd, vars) {
                    Err(e) => Err(e),
                    Ok(proj) => match resolve_assets_spec(base, p.assets) {
                        Err(e) => Err(e),
                        Ok(assets) => match timeline_spec(p.timelines[0], base, assets, vars, proj.fps) {
                            Err(e) => Err(e),
                            Ok(tl) => match resolve_outputs_spec(base, p.outputs, vars) {
                                Err(e) => Err(e),
                                Ok(outs) => Ok(IrProgramView { project: proj, assets, timeline: tl, outputs: outs }),
                            },
                        },
                    },
                },
            }
        },
    }
}

} // verus!
