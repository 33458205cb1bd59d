//! Semantic analysis: variables, value conversions and the project block.
use vstd::prelude::*;
use crate::ast::{AttrView, Expression, LetDecl, LetView, ProjectDecl};
use crate::error::{ErrView, ErrorKind, VeacError};
use crate::fixed::{tdiv, Fixed, SCALE};
use crate::ir::{Codec, FitMode, IrProject, IrProjectView, OutputFormat, Quality};
use crate::ir_kinds::Position;
use crate::lexer::decimal_saturated;
use crate::semantic_spec::{
    codec_named, codec_of, decimal_text, first_dup, lemma_first_dup_prefix, fit_named, fold_attrs, format_named, format_of,
    lemma_fold_attrs_err, lemma_fold_attrs_step, lookup_var, position_named, position_of, project_apply, project_init,
    quality_named, quality_of, resolution_of, resolve_expr, resolve_project_spec,
    resolve_vars_spec, smpte_part, project_step, smpte_seconds, tick, to_bool, to_number, to_seconds, to_u32,
};
use crate::split::{parse_u32_chars, split_chars, split_on};
use crate::text::{chars_eq_str, chars_of, is_digit, push_str, string_eq_str, string_of};
use crate::token::push_int_text;

verus! {

/// Semantic analyzer: validates the syntax tree and produces the resolved
/// program. Paths of assets, outputs and subtitles are taken relative to
/// `base_dir`.
pub struct SemanticAnalyzer {
    pub base_dir: String,
}

/// The views of a run of `let` declarations.
pub open spec fn lets_view(v: Seq<LetDecl>) -> Seq<LetView> {
    v.map_values(|l: LetDecl| l@)
}

/// An executable result as a result over views.
pub open spec fn res_view<T: View>(r: Result<T, VeacError>) -> Result<T::V, ErrView> {
    match r {
        Ok(v) => Ok(v@),
        Err(e) => Err(e@),
    }
}

/// An executable result of plain values as a result over views.
pub open spec fn res_plain<T>(r: Result<T, VeacError>) -> Result<T, ErrView> {
    match r {
        Ok(v) => Ok(v),
        Err(e) => Err(e@),
    }
}

/// The same `let` declaration, with its text copied.
pub fn copy_let(d: &LetDecl) -> (r: LetDecl)
    ensures
        r@ == d@,
{
    LetDecl { name: d.name.clone(), value: d.value.copy() }
}

/// Appends `` `s` `` to `out`.
pub fn push_tick(out: &mut String, s: &str)
    ensures
        final(out)@ == old(out)@ + tick(s@),
{
    push_str(out, "`");
    push_str(out, s);
    push_str(out, "`");
    assert(final(out)@ =~= old(out)@ + tick(s@));
}

/// The error of kind `kind` with `message` and no location or hint.
pub fn plain_error(kind: ErrorKind, message: String) -> (e: VeacError)
    ensures
        e@ == crate::error::err(kind, message@, None, None),
{
    VeacError::new(kind, message, None)
}

/// Whether a name of `names[..n]` equals `name`.
pub fn name_among(names: &Vec<String>, n: usize, name: &String) -> (b: bool)
    requires
        n <= names@.len(),
    ensures
        b == names@.take(n as int).map_values(|s: String| s@).contains(name@),
{
    let ghost ns = names@.take(n as int).map_values(|s: String| s@);
    let mut i: usize = 0;
    while i < n
        invariant
            i <= n <= names@.len(),
            ns == names@.take(n as int).map_values(|s: String| s@),
            forall|k: int| 0 <= k < i ==> ns[k] != name@,
        decreases n - i,
    {
        if string_eq_str(&names[i], name.as_str()) {
            assert(ns[i as int] == name@);
            return true;
        }
        i = i + 1;
    }
    false
}

/// The index of the first name that already occurred before it.
pub fn first_dup_exec(names: &Vec<String>) -> (r: Option<usize>)
    ensures
        r matches Some(i) ==> i < names@.len(),
        first_dup(names@.map_values(|s: String| s@)) == match r {
            Some(i) => Some(i as int),
            None => None::<int>,
        },
{
    let ghost all = names@.map_values(|s: String| s@);
    let mut i: usize = 0;
    assert(all.take(0) =~= Seq::<Seq<char>>::empty());
    while i < names.len()
        invariant
            i <= names@.len(),
            all == names@.map_values(|s: String| s@),
            first_dup(all.take(i as int)) is None,
        decreases names@.len() - i,
    {
        let seen = name_among(names, i, &names[i]);
        assert(all.take(i + 1).drop_last() =~= all.take(i as int));
        assert(names@.take(i as int).map_values(|s: String| s@) =~= all.take(i as int));
        if seen {
            proof {
                lemma_first_dup_prefix(all, i + 1);
            }
            return Some(i);
        }
        i = i + 1;
    }
    assert(all.take(i as int) =~= all);
    None
}

/// The value bound to `name`, by its first binding.
pub fn lookup_variable(vars: &Vec<LetDecl>, name: &String) -> (r: Option<Expression>)
    ensures
        lookup_var(lets_view(vars@), name@) == match r {
            Some(x) => Some(x@),
            None => None,
        },
{
    let ghost vs = lets_view(vars@);
    let mut i: usize = 0;
    assert(vs.skip(0) =~= vs);
    while i < vars.len()
        invariant
            i <= vars@.len(),
            vs == lets_view(vars@),
            lookup_var(vs, name@) == lookup_var(vs.skip(i as int), name@),
        decreases vars@.len() - i,
    {
        assert(vs.skip(i as int)[0] == vs[i as int]);
        if string_eq_str(&vars[i].name, name.as_str()) {
            return Some(vars[i].value.copy());
        }
        assert(vs.skip(i as int).drop_first() =~= vs.skip(i + 1));
        i = i + 1;
    }
    None
}

/// The value in billionths of one field of an SMPTE timecode.
fn smpte_field(p: &Vec<char>) -> (r: i64)
    ensures
        r as int == smpte_part(p@),
{
    let n = p.len();
    let signed = n > 0 && (p[0] == '+' || p[0] == '-');
    let negative = n > 0 && p[0] == '-';
    let start: usize = if signed { 1 } else { 0 };
    let ghost d = if signed { p@.drop_first() } else { p@ };
    assert(d =~= p@.subrange(start as int, n as int));
    let mut dots: usize = 0;
    let mut i: usize = start;
    while i < n
        invariant
            start <= i <= n,
            n == p@.len(),
            d =~= p@.subrange(start as int, n as int),
            d == (if signed { p@.drop_first() } else { p@ }),
            signed == (p@.len() > 0 && (p@[0] == '+' || p@[0] == '-')),
            start == (if signed { 1usize } else { 0usize }),
            forall|k: int| start <= k < i ==> is_digit(#[trigger] p@[k]) || p@[k] == '.',
            dots <= 1,
            dots == 0 ==> forall|k: int| start <= k < i ==> p@[k] != '.',
            dots == 1 ==> exists|k: int| start <= k < i && p@[k] == '.' && forall|j: int| start <= j < i && p@[j] == '.' ==> j == k,
        decreases n - i,
    {
        let ch = p[i];
        if ch == '.' {
            if dots == 1 {
                proof {
                    let k = choose|k: int| start <= k < i && p@[k] == '.' && forall|j: int| start <= j < i && p@[j] == '.' ==> j == k;
                    assert(d[k - start] == '.' && d[i - start] == '.');
                    assert(!decimal_text(d));
                }
                return 0;
            }
            dots = 1;
        } else if !('0' <= ch && ch <= '9') {
            assert(!(is_digit(d[i - start]) || d[i - start] == '.'));
            assert(!decimal_text(d));
            return 0;
        }
        i = i + 1;
    }
    let v = decimal_saturated(p, start, n);
    if negative {
        -v
    } else {
        v
    }
}

/// The output format a name denotes.
pub fn format_named_exec(s: &str) -> (r: Option<OutputFormat>)
    ensures
        r == format_named(s@),
{
    let v = chars_of(s);
    let c = v.as_slice();
    if chars_eq_str(c, "mp4") {
        Some(OutputFormat::Mp4)
    } else if chars_eq_str(c, "mkv") {
        Some(OutputFormat::Mkv)
    } else if chars_eq_str(c, "webm") {
        Some(OutputFormat::Webm)
    } else if chars_eq_str(c, "mov") {
        Some(OutputFormat::Mov)
    } else {
        None
    }
}

/// The codec a name denotes.
pub fn codec_named_exec(s: &str) -> (r: Option<Codec>)
    ensures
        r == codec_named(s@),
{
    let v = chars_of(s);
    let c = v.as_slice();
    if chars_eq_str(c, "h264") {
        Some(Codec::H264)
    } else if chars_eq_str(c, "h265") {
        Some(Codec::H265)
    } else if chars_eq_str(c, "vp9") {
        Some(Codec::Vp9)
    } else if chars_eq_str(c, "av1") {
        Some(Codec::Av1)
    } else {
        None
    }
}

/// The quality level a name denotes.
pub fn quality_named_exec(s: &str) -> (r: Option<Quality>)
    ensures
        r == quality_named(s@),
{
    let v = chars_of(s);
    let c = v.as_slice();
    if chars_eq_str(c, "low") {
        Some(Quality::Low)
    } else if chars_eq_str(c, "medium") {
        Some(Quality::Medium)
    } else if chars_eq_str(c, "high") {
        Some(Quality::High)
    } else if chars_eq_str(c, "lossless") {
        Some(Quality::Lossless)
    } else {
        None
    }
}

/// The fit mode a name denotes.
pub fn fit_named_exec(s: &str) -> (r: Option<FitMode>)
    ensures
        r == fit_named(s@),
{
    let v = chars_of(s);
    let c = v.as_slice();
    if chars_eq_str(c, "fill") {
        Some(FitMode::Fill)
    } else if chars_eq_str(c, "letterbox") {
        Some(FitMode::Letterbox)
    } else if chars_eq_str(c, "crop") {
        Some(FitMode::Crop)
    } else {
        None
    }
}

/// The position a name denotes.
pub fn position_named_exec(s: &str) -> (r: Option<Position>)
    ensures
        r == position_named(s@),
{
    let v = chars_of(s);
    let c = v.as_slice();
    if chars_eq_str(c, "center") {
        Some(Position::Center)
    } else if chars_eq_str(c, "top-left") {
        Some(Position::TopLeft)
    } else if chars_eq_str(c, "top-right") {
        Some(Position::TopRight)
    } else if chars_eq_str(c, "bottom-left") {
        Some(Position::BottomLeft)
    } else if chars_eq_str(c, "bottom-right") {
        Some(Position::BottomRight)
    } else if chars_eq_str(c, "top") {
        Some(Position::Top)
    } else if chars_eq_str(c, "bottom") {
        Some(Position::Bottom)
    } else if chars_eq_str(c, "left") {
        Some(Position::Left)
    } else if chars_eq_str(c, "right") {
        Some(Position::Right)
    } else {
        None
    }
}

/// Dividing by a positive number never moves away from zero.
proof fn lemma_tdiv_bound(a: int, d: int)
    requires
        d > 0,
    ensures
        -(if a < 0 { -a } else { a }) <= tdiv(a, d) <= (if a < 0 { -a } else { a }),
{
    let m = if a < 0 { -a } else { a };
    vstd::arithmetic::div_mod::lemma_div_is_ordered_by_denominator(m, 1, d);
    assert(m / 1 == m);
}

impl SemanticAnalyzer {
    pub fn new(base_dir: &str) -> (a: Self)
        ensures
            a.base_dir@ == base_dir@,
    {
        SemanticAnalyzer { base_dir: string_of(base_dir) }
    }

    /// The variable table: the declarations themselves, or the error for
    /// the first name bound twice.
    pub fn resolve_variables(&self, vars: &Vec<LetDecl>) -> (r: Result<Vec<LetDecl>, VeacError>)
        ensures
            r matches Err(e) ==> e.span is None,
            resolve_vars_spec(lets_view(vars@)) == match r {
                Ok(v) => Ok(lets_view(v@)),
                Err(e) => Err(e@),
            },
    {
        let mut names: Vec<String> = Vec::new();
        let mut copies: Vec<LetDecl> = Vec::new();
        let mut i: usize = 0;
        while i < vars.len()
            invariant
                i <= vars@.len(),
                names@.len() == i,
                forall|k: int| 0 <= k < i ==> #[trigger] names@[k]@ == vars@[k].name@,
                lets_view(copies@) == lets_view(vars@).take(i as int),
            decreases vars@.len() - i,
        {
            names.push(vars[i].name.clone());
            let ghost before = lets_view(copies@);
            let c = copy_let(&vars[i]);
            copies.push(c);
            assert(lets_view(copies@) =~= before.push(c@));
            assert(lets_view(vars@).take(i + 1) =~= lets_view(vars@).take(i as int).push(lets_view(vars@)[i as int]));
            i = i + 1;
        }
        assert(names@.map_values(|s: String| s@) =~= lets_view(vars@).map_values(|v: LetView| v.0));
        assert(lets_view(copies@) =~= lets_view(vars@));
        match first_dup_exec(&names) {
            Some(k) => {
                let mut msg = string_of("variable ");
                push_tick(&mut msg, vars[k].name.as_str());
                push_str(&mut msg, " is already defined");
                let e = plain_error(ErrorKind::DuplicateDefinition, msg);
                assert(e@.message =~= "variable "@ + tick(lets_view(vars@)[k as int].0) + " is already defined"@);
                Err(e)
            },
            None => Ok(copies),
        }
    }

    /// An expression with a variable replaced by its value.
    pub fn resolve_expression(&self, expr: &Expression, variables: &Vec<LetDecl>) -> (r: Result<Expression, VeacError>)
        ensures
            r matches Err(e) ==> e.span is None,
            resolve_expr(expr@, lets_view(variables@)) == res_view(r),
    {
        match expr {
            Expression::Ident(name) => match lookup_variable(variables, name) {
                Some(v) => Ok(v),
                None => {
                    let mut msg = string_of("undefined variable ");
                    push_tick(&mut msg, name.as_str());
                    let mut hint = string_of("define it with `let ");
                    push_str(&mut hint, name.as_str());
                    push_str(&mut hint, " = ...`");
                    let e = VeacError::new(ErrorKind::UndefinedVariable, msg, None).with_hint(hint);
                    assert(e@.message =~= "undefined variable "@ + tick(name@));
                    assert(e@.hint->0 =~= "define it with `let "@ + name@ + " = ...`"@);
                    Err(e)
                },
            },
            _ => Ok(expr.copy()),
        }
    }

    /// The seconds of an `HH:MM:SS:FF` timecode at `fps` frames per second.
    #[verifier::rlimit(30)]
    pub fn parse_smpte(s: &str, fps: u32) -> (r: Result<Fixed, VeacError>)
        ensures
            r matches Err(e) ==> e.span is None,
            smpte_seconds(s@, fps) == res_plain(r),
    {
        let v = chars_of(s);
        let parts = split_chars(v.as_slice(), ':');
        let ghost ps = split_on(s@, ':');
        assert(parts@.len() == ps.len());
        if parts.len() != 4 {
            let mut msg = string_of("invalid SMPTE timecode ");
            push_tick(&mut msg, s);
            let e = plain_error(ErrorKind::InvalidTimeLiteral, msg);
            assert(e@.message =~= "invalid SMPTE timecode "@ + tick(s@));
            return Err(e);
        }
        assert(parts@[0]@ == ps[0] && parts@[1]@ == ps[1] && parts@[2]@ == ps[2] && parts@[3]@ == ps[3]);
        let h = smpte_field(&parts[0]);
        let m = smpte_field(&parts[1]);
        let sec = smpte_field(&parts[2]);
        let f = smpte_field(&parts[3]);
        let hms: i128 = (h as i128) * 3600 + (m as i128) * 60 + (sec as i128);
        if fps == 0 {
            if f > 0 {
                Ok(Fixed { raw: i64::MAX })
            } else if f < 0 {
                Ok(Fixed { raw: i64::MIN })
            } else {
                Ok(Fixed::from_wide(hms))
            }
        } else {
            let q = Fixed { raw: f }.div_int(fps as i64);
            assert(q.raw == tdiv(f as int, fps as int)) by {
                lemma_tdiv_bound(f as int, fps as int);
            }
            Ok(Fixed::from_wide(hms + (q.raw as i128)))
        }
    }

    /// A time value in seconds.
    pub fn expr_to_seconds(&self, expr: &Expression, fps: u32, field: &str) -> (r: Result<Fixed, VeacError>)
        ensures
            r matches Err(e) ==> e.span is None,
            to_seconds(expr@, fps, field@) == res_plain(r),
    {
        match expr {
            Expression::TimeSec(v) => Ok(*v),
            Expression::TimeMs(v) => Ok(v.div_int(1000)),
            Expression::TimeFrames(n) => {
                if fps == 0 {
                    Ok(if *n > 0 { Fixed { raw: i64::MAX } } else { Fixed { raw: 0 } })
                } else {
                    let q: u128 = (*n as u128) * 1_000_000_000 / (fps as u128);
                    assert(q <= (*n as u128) * 1_000_000_000) by {
                        vstd::arithmetic::div_mod::lemma_div_is_ordered_by_denominator(
                            (*n as u128 * 1_000_000_000) as int,
                            1,
                            fps as int,
                        );
                    }
                    Ok(Fixed::from_wide(q as i128))
                }
            },
            Expression::Smpte(s) => SemanticAnalyzer::parse_smpte(s.as_str(), fps),
            Expression::IntLit(n) => Ok(Fixed::from_int(*n)),
            Expression::FloatLit(v) => Ok(*v),
            _ => {
                let mut msg = String::new();
                push_tick(&mut msg, field);
                push_str(&mut msg, " expects a time value (e.g. 3.5s, 500ms, 84f)");
                let e = plain_error(ErrorKind::TypeMismatch, msg);
                assert(e@.message =~= tick(field@) + " expects a time value (e.g. 3.5s, 500ms, 84f)"@);
                Err(e)
            },
        }
    }

    /// A number.
    pub fn expr_to_f64(&self, expr: &Expression, field: &str) -> (r: Result<Fixed, VeacError>)
        ensures
            r matches Err(e) ==> e.span is None,
            to_number(expr@, field@) == res_plain(r),
    {
        match expr {
            Expression::FloatLit(v) => Ok(*v),
            Expression::IntLit(n) => Ok(Fixed::from_int(*n)),
            _ => {
                let mut msg = String::new();
                push_tick(&mut msg, field);
                push_str(&mut msg, " expects a number");
                let e = plain_error(ErrorKind::TypeMismatch, msg);
                assert(e@.message =~= tick(field@) + " expects a number"@);
                Err(e)
            },
        }
    }

    /// A boolean.
    pub fn expr_to_bool(&self, expr: &Expression, field: &str) -> (r: Result<bool, VeacError>)
        ensures
            r matches Err(e) ==> e.span is None,
            to_bool(expr@, field@) == res_plain(r),
    {
        match expr {
            Expression::BoolLit(b) => Ok(*b),
            _ => {
                let mut msg = String::new();
                push_tick(&mut msg, field);
                push_str(&mut msg, " expects a boolean");
                let e = plain_error(ErrorKind::TypeMismatch, msg);
                assert(e@.message =~= tick(field@) + " expects a boolean"@);
                Err(e)
            },
        }
    }

    /// A non-negative integer, taken modulo 2^32.
    pub fn expr_to_u32(&self, expr: &Expression, field: &str) -> (r: Result<u32, VeacError>)
        ensures
            r matches Err(e) ==> e.span is None,
            to_u32(expr@, field@) == res_plain(r),
    {
        match expr {
            Expression::IntLit(n) => {
                if *n >= 0 {
                    Ok(((*n as u64) % 0x1_0000_0000) as u32)
                } else {
                    let mut msg = String::new();
                    push_tick(&mut msg, field);
                    push_str(&mut msg, " must be positive, got ");
                    push_int_text(&mut msg, *n);
                    let e = plain_error(ErrorKind::InvalidValue, msg);
                    assert(e@.message =~= tick(field@) + " must be positive, got "@ + crate::text::int_text(*n as int));
                    Err(e)
                }
            },
            _ => {
                let mut msg = String::new();
                push_tick(&mut msg, field);
                push_str(&mut msg, " expects an integer");
                let e = plain_error(ErrorKind::TypeMismatch, msg);
                assert(e@.message =~= tick(field@) + " expects an integer"@);
                Err(e)
            },
        }
    }

    /// The format a string expression names.
    pub fn parse_format(val: &Expression) -> (r: Result<OutputFormat, VeacError>)
        ensures
            r matches Err(e) ==> e.span is None,
            format_of(val@) == res_plain(r),
    {
        match val {
            Expression::StringLit(s) => match format_named_exec(s.as_str()) {
                Some(x) => Ok(x),
                None => {
                    let mut msg = string_of("unknown format ");
                    push_tick(&mut msg, s.as_str());
                    let e = VeacError::new(ErrorKind::InvalidValue, msg, None).with_hint(string_of("supported: mp4, mkv, webm, mov"));
                    assert(e@.message =~= "unknown format "@ + tick(s@));
                    Err(e)
                },
            },
            _ => Err(plain_error(ErrorKind::TypeMismatch, string_of("format must be a string"))),
        }
    }

    /// The codec a string expression names.
    pub fn parse_codec(val: &Expression) -> (r: Result<Codec, VeacError>)
        ensures
            r matches Err(e) ==> e.span is None,
            codec_of(val@) == res_plain(r),
    {
        match val {
            Expression::StringLit(s) => match codec_named_exec(s.as_str()) {
                Some(x) => Ok(x),
                None => {
                    let mut msg = string_of("unknown codec ");
                    push_tick(&mut msg, s.as_str());
                    let e = VeacError::new(ErrorKind::InvalidValue, msg, None).with_hint(string_of("supported: h264, h265, vp9, av1"));
                    assert(e@.message =~= "unknown codec "@ + tick(s@));
                    Err(e)
                },
            },
            _ => Err(plain_error(ErrorKind::TypeMismatch, string_of("codec must be a string"))),
        }
    }

    /// The quality a string expression names.
    pub fn parse_quality(val: &Expression) -> (r: Result<Quality, VeacError>)
        ensures
            r matches Err(e) ==> e.span is None,
            quality_of(val@) == res_plain(r),
    {
        match val {
            Expression::StringLit(s) => match quality_named_exec(s.as_str()) {
                Some(x) => Ok(x),
                None => {
                    let mut msg = string_of("unknown quality ");
                    push_tick(&mut msg, s.as_str());
                    let e = VeacError::new(ErrorKind::InvalidValue, msg, None).with_hint(string_of("supported: low, medium, high, lossless"));
                    assert(e@.message =~= "unknown quality "@ + tick(s@));
                    Err(e)
                },
            },
            _ => Err(plain_error(ErrorKind::TypeMismatch, string_of("quality must be a string"))),
        }
    }

    /// The position a name denotes.
    pub fn parse_position(s: &str) -> (r: Result<Position, VeacError>)
        ensures
            r matches Err(e) ==> e.span is None,
            position_of(s@) == res_plain(r),
    {
        match position_named_exec(s) {
            Some(p) => Ok(p),
            None => {
                let mut msg = string_of("unknown position ");
                push_tick(&mut msg, s);
                let e = VeacError::new(ErrorKind::InvalidValue, msg, None).with_hint(string_of(
                    "use: center, top-left, top-right, bottom-left, bottom-right, top, bottom, left, right",
                ));
                assert(e@.message =~= "unknown position "@ + tick(s@));
                Err(e)
            },
        }
    }

    /// A `"WIDTHxHEIGHT"` resolution.
    pub fn parse_resolution(val: &Expression) -> (r: Result<(u32, u32), VeacError>)
        ensures
            r matches Err(e) ==> e.span is None,
            resolution_of(val@) == res_plain(r),
    {
        match val {
            Expression::StringLit(s) => {
                let v = chars_of(s.as_str());
                let parts = split_chars(v.as_slice(), 'x');
                let ghost ps = split_on(s@, 'x');
                assert(parts@.len() == ps.len());
                if parts.len() != 2 {
                    let mut msg = string_of("invalid resolution ");
                    push_tick(&mut msg, s.as_str());
                    push_str(&mut msg, ", expected `WIDTHxHEIGHT`");
                    let e = plain_error(ErrorKind::InvalidValue, msg);
                    assert(e@.message =~= "invalid resolution "@ + tick(s@) + ", expected `WIDTHxHEIGHT`"@);
                    return Err(e);
                }
                assert(parts@[0]@ == ps[0] && parts@[1]@ == ps[1]);
                let w = match parse_u32_chars(parts[0].as_slice()) {
                    Some(w) => w,
                    None => {
                        let mut msg = string_of("invalid width in ");
                        push_tick(&mut msg, s.as_str());
                        let e = plain_error(ErrorKind::InvalidValue, msg);
                        assert(e@.message =~= "invalid width in "@ + tick(s@));
                        return Err(e);
                    },
                };
                let h = match parse_u32_chars(parts[1].as_slice()) {
                    Some(h) => h,
                    None => {
                        let mut msg = string_of("invalid height in ");
                        push_tick(&mut msg, s.as_str());
                        let e = plain_error(ErrorKind::InvalidValue, msg);
                        assert(e@.message =~= "invalid height in "@ + tick(s@));
                        return Err(e);
                    },
                };
                Ok((w, h))
            },
            _ => Err(plain_error(ErrorKind::TypeMismatch, string_of("resolution must be a string like \"1920x1080\""))),
        }
    }

    /// The project settings after the attribute `key = v`.
    fn apply_project_attr(&self, p: &mut IrProject, key: &String, v: &Expression) -> (r: Result<(), VeacError>)
        ensures
            r matches Err(e) ==> e.span is None,
            project_apply(old(p)@, key@, v@) == match r {
                Ok(_) => Ok(final(p)@),
                Err(e) => Err(e@),
            },
    {
        if string_eq_str(key, "resolution") {
            let (w, h) = SemanticAnalyzer::parse_resolution(v)?;
            p.width = w;
            p.height = h;
        } else if string_eq_str(key, "fps") {
            p.fps = self.expr_to_u32(v, "fps")?;
        } else if string_eq_str(key, "format") {
            p.format = SemanticAnalyzer::parse_format(v)?;
        } else if string_eq_str(key, "codec") {
            p.codec = SemanticAnalyzer::parse_codec(v)?;
        } else if string_eq_str(key, "quality") {
            p.quality = SemanticAnalyzer::parse_quality(v)?;
        } else if string_eq_str(key, "fit") {
            if let Expression::StringLit(s) = v {
                match fit_named_exec(s.as_str()) {
                    Some(f) => {
                        p.fit = f;
                    },
                    None => {
                        let mut msg = string_of("unknown fit mode ");
                        push_tick(&mut msg, s.as_str());
                        let e = VeacError::new(ErrorKind::InvalidValue, msg, None).with_hint(string_of(
                            "supported: fill, letterbox, crop",
                        ));
                        assert(e@.message =~= "unknown fit mode "@ + tick(s@));
                        return Err(e);
                    },
                }
            }
        }
        Ok(())
    }

    /// The resolved project of a `project` block.
    #[verifier::rlimit(30)]
    pub fn resolve_project(&self, decl: &ProjectDecl, variables: &Vec<LetDecl>) -> (r: Result<IrProject, VeacError>)
        ensures
            r matches Err(e) ==> e.span is None,
            resolve_project_spec(decl@, lets_view(variables@)) == res_view(r),
    {
        let ghost attrs = decl@.1;
        let ghost step = project_step(lets_view(variables@));
        let mut p = IrProject {
            name: decl.name.clone(),
            width: 1920,
            height: 1080,
            fps: 30,
            format: OutputFormat::Mp4,
            codec: Codec::H264,
            quality: Quality::High,
            fit: FitMode::Fill,
        };
        let mut i: usize = 0;
        assert(attrs.take(0) =~= Seq::<AttrView>::empty());
        while i < decl.attributes.len()
            invariant
                i <= decl.attributes@.len(),
                attrs == decl@.1,
                attrs.len() == decl.attributes@.len(),
                step == project_step(lets_view(variables@)),
                fold_attrs(attrs.take(i as int), project_init(decl@.0), step) == Ok::<IrProjectView, ErrView>(p@),
            decreases decl.attributes@.len() - i,
        {
            proof {
                lemma_fold_attrs_step(attrs, i as int, project_init(decl@.0), step);
            }
            let attr = &decl.attributes[i];
            assert(attrs[i as int] == attr@);
            let val = match self.resolve_expression(&attr.value, variables) {
                Ok(v) => v,
                Err(e) => {
                    proof {
                        lemma_fold_attrs_err(attrs, i + 1, project_init(decl@.0), step);
                    }
                    return Err(e);
                },
            };
            match self.apply_project_attr(&mut p, &attr.key, &val) {
                Ok(_) => {},
                Err(e) => {
                    proof {
                        lemma_fold_attrs_err(attrs, i + 1, project_init(decl@.0), step);
                    }
                    return Err(e);
                },
            }
            i = i + 1;
        }
        assert(attrs.take(i as int) =~= attrs);
        Ok(p)
    }
}

} // verus!
