//! Resolution of clip declarations.
use vstd::prelude::*;
use crate::ast::{AssetDecl, AssetView, AttrView, ClipDecl, Expression, LetDecl};
use crate::error::{ErrorKind, VeacError};
use crate::fixed::{fixed_text, Fixed};
use crate::ir::{IrAsset, IrAssetKind, IrAssetView, IrClip, IrClipView};
use crate::semantic::{lets_view, plain_error, push_tick, res_plain, res_view, SemanticAnalyzer, first_dup_exec};
use crate::semantic_spec::{
    asset_ir, asset_ir_kind, clip_apply, clip_apply_flag, clip_apply_ranged, clip_apply_text, clip_apply_timing, clip_post, clip_step,
    clip_msg, find_asset, first_dup, fold_attrs, gt_check, lemma_fold_attrs_err, lemma_fold_attrs_step, range_check,
    resolve_assets_spec, resolve_clip_spec, tick, undefined_asset,
};
use crate::split::{has_char, has_char_exec, join_path_exec};
use crate::text::{chars_of, push_str, string_eq_str, string_of, string_push};

verus! {

/// The views of a run of resolved assets.
pub open spec fn assets_view(v: Seq<IrAsset>) -> Seq<IrAssetView> {
    v.map_values(|a: IrAsset| a@)
}

/// The views of a run of asset declarations.
pub open spec fn asset_decls_view(v: Seq<AssetDecl>) -> Seq<AssetView> {
    v.map_values(|a: AssetDecl| a@)
}

/// The index of the first asset named `name`.
pub fn find_asset_index(assets: &Vec<IrAsset>, name: &String) -> (r: Option<usize>)
    ensures
        r matches Some(i) ==> i < assets@.len(),
        find_asset(assets_view(assets@), name@) == match r {
            Some(i) => Some(assets_view(assets@)[i as int]),
            None => None,
        },
{
    let ghost vs = assets_view(assets@);
    let mut i: usize = 0;
    assert(vs.skip(0) =~= vs);
    while i < assets.len()
        invariant
            i <= assets@.len(),
            vs == assets_view(assets@),
            find_asset(vs, name@) == find_asset(vs.skip(i as int), name@),
        decreases assets@.len() - i,
    {
        assert(vs.skip(i as int)[0] == vs[i as int]);
        if string_eq_str(&assets[i].name, name.as_str()) {
            return Some(i);
        }
        assert(vs.skip(i as int).drop_first() =~= vs.skip(i + 1));
        i = i + 1;
    }
    None
}

/// The error for a reference to an asset that was never declared.
pub fn undefined_asset_error(name: &String, kind_word: &str) -> (e: VeacError)
    ensures
        e@ == undefined_asset(name@, kind_word@),
{
    let mut msg = string_of("undefined asset ");
    push_tick(&mut msg, name.as_str());
    let mut hint = string_of("define it with `asset ");
    push_str(&mut hint, name.as_str());
    push_str(&mut hint, " = ");
    push_str(&mut hint, kind_word);
    push_str(&mut hint, "(\"path\")`");
    let e = VeacError::new(ErrorKind::UndefinedAsset, msg, None).with_hint(hint);
    assert(e@.message =~= undefined_asset(name@, kind_word@).message);
    assert(e@.hint->0 =~= undefined_asset(name@, kind_word@).hint->0);
    e
}

/// Appends `"clip `name`: "` to `out`.
fn push_clip_prefix(out: &mut String, name: &str)
    ensures
        final(out)@ == old(out)@ + clip_msg(name@, Seq::empty()),
{
    push_str(out, "clip ");
    push_tick(out, name);
    push_str(out, ": ");
    assert(final(out)@ =~= old(out)@ + clip_msg(name@, Seq::empty()));
}

/// `v` when it lies within `[min, max]`, else the clip's range error.
pub fn validate_range(v: Fixed, min: Fixed, max: Fixed, clip_name: &str, field: &str) -> (r: Result<Fixed, VeacError>)
    ensures
            r matches Err(e) ==> e.span is None,
        range_check(v, min.raw as int, max.raw as int, clip_name@, field@) == res_plain(r),
{
    if min.raw <= v.raw && v.raw <= max.raw {
        Ok(v)
    } else {
        let mut msg = String::new();
        push_clip_prefix(&mut msg, clip_name);
        push_str(&mut msg, field);
        push_str(&mut msg, " ");
        push_str(&mut msg, v.text().as_str());
        push_str(&mut msg, " is out of range, must be ");
        push_str(&mut msg, min.text().as_str());
        push_str(&mut msg, " to ");
        push_str(&mut msg, max.text().as_str());
        let e = plain_error(ErrorKind::InvalidValue, msg);
        assert(e@.message =~= clip_msg(clip_name@, field@ + " "@ + fixed_text(v.raw as int)
            + " is out of range, must be "@ + fixed_text(min.raw as int) + " to "@ + fixed_text(max.raw as int)));
        Err(e)
    }
}

/// `v` when it is above `min`, else the clip's bound error.
pub fn validate_gt(v: Fixed, min: Fixed, clip_name: &str, field: &str) -> (r: Result<Fixed, VeacError>)
    ensures
            r matches Err(e) ==> e.span is None,
        gt_check(v, min.raw as int, clip_name@, field@) == res_plain(r),
{
    if v.raw > min.raw {
        Ok(v)
    } else {
        let mut msg = String::new();
        push_clip_prefix(&mut msg, clip_name);
        push_str(&mut msg, field);
        push_str(&mut msg, " must be > ");
        push_str(&mut msg, min.text().as_str());
        push_str(&mut msg, ", got ");
        push_str(&mut msg, v.text().as_str());
        let e = plain_error(ErrorKind::InvalidValue, msg);
        assert(e@.message =~= clip_msg(clip_name@, field@ + " must be > "@ + fixed_text(min.raw as int)
            + ", got "@ + fixed_text(v.raw as int)));
        Err(e)
    }
}

/// The resolved clip settings of an asset before any attribute.
fn clip_for(a: &IrAsset) -> (c: IrClip)
    ensures
        c@ == crate::ir::default_clip(a@.name, a@.path, a@.kind),
{
    let mut c = IrClip::default();
    c.asset_name = a.name.clone();
    c.asset_path = a.path.clone();
    c.asset_kind = a.kind;
    c
}

impl SemanticAnalyzer {
    /// The resolved assets, their paths taken relative to the base
    /// directory, or the error for the first name declared twice.
    pub fn resolve_assets(&self, decls: &Vec<AssetDecl>) -> (r: Result<Vec<IrAsset>, VeacError>)
        ensures
            r matches Err(e) ==> e.span is None,
            resolve_assets_spec(self.base_dir@, asset_decls_view(decls@)) == match r {
                Ok(v) => Ok(assets_view(v@)),
                Err(e) => Err(e@),
            },
    {
        let ghost ds = asset_decls_view(decls@);
        let mut names: Vec<String> = Vec::new();
        let mut assets: Vec<IrAsset> = Vec::new();
        let mut i: usize = 0;
        while i < decls.len()
            invariant
                i <= decls@.len(),
                ds == asset_decls_view(decls@),
                names@.len() == i,
                forall|k: int| 0 <= k < i ==> #[trigger] names@[k]@ == decls@[k].name@,
                assets_view(assets@) == ds.take(i as int).map_values(|d: AssetView| asset_ir(self.base_dir@, d)),
            decreases decls@.len() - i,
        {
            let d = &decls[i];
            names.push(d.name.clone());
            let kind = match d.kind {
                crate::ast::AssetKind::Video => IrAssetKind::Video,
                crate::ast::AssetKind::Audio => IrAssetKind::Audio,
                crate::ast::AssetKind::Image => IrAssetKind::Image,
            };
            let a = IrAsset { name: d.name.clone(), kind, path: join_path_exec(self.base_dir.as_str(), d.path.as_str()) };
            let ghost before = assets_view(assets@);
            assets.push(a);
            assert(a@ == asset_ir(self.base_dir@, ds[i as int]));
            assert(assets_view(assets@) =~= before.push(a@));
            assert(ds.take(i + 1).map_values(|d: AssetView| asset_ir(self.base_dir@, d)) =~= ds.take(
                i as int,
            ).map_values(|d: AssetView| asset_ir(self.base_dir@, d)).push(asset_ir(self.base_dir@, ds[i as int])));
            i = i + 1;
        }
        assert(names@.map_values(|s: String| s@) =~= ds.map_values(|d: AssetView| d.0));
        assert(ds.take(i as int) =~= ds);
        match first_dup_exec(&names) {
            Some(k) => {
                let mut msg = string_of("duplicate asset name ");
                push_tick(&mut msg, decls[k].name.as_str());
                let e = plain_error(ErrorKind::DuplicateDefinition, msg);
                assert(e@.message =~= "duplicate asset name "@ + tick(ds[k as int].0));
                Err(e)
            },
            None => Ok(assets),
        }
    }

    /// The clip after a timing or sound attribute `key = v`; `None`, with
    /// the clip unchanged, for other keys.
    #[verifier::rlimit(30)]
    fn apply_clip_timing(&self, ir: &mut IrClip, key: &String, v: &Expression, fps: u32) -> (r: Option<Result<(), VeacError>>)
        ensures
            r matches Some(Err(e)) ==> e.span is None,
            clip_apply_timing(old(ir)@, key@, v@, fps) == match r {
                Some(Ok(_)) => Some(Ok(final(ir)@)),
                Some(Err(e)) => Some(Err(e@)),
                None => None::<Result<IrClipView, crate::error::ErrView>>,
            },
            r is None ==> final(ir)@ == old(ir)@,
    {
        if string_eq_str(key, "from") {
            match self.expr_to_seconds(v, fps, "from") {
                Ok(x) => {
                    ir.from_sec = Some(x);
                    Some(Ok(()))
                },
                Err(e) => Some(Err(e)),
            }
        } else if string_eq_str(key, "to") {
            match self.expr_to_seconds(v, fps, "to") {
                Ok(x) => {
                    ir.to_sec = Some(x);
                    Some(Ok(()))
                },
                Err(e) => Some(Err(e)),
            }
        } else if string_eq_str(key, "duration") {
            match self.expr_to_seconds(v, fps, "duration") {
                Ok(x) => {
                    ir.duration_sec = Some(x);
                    Some(Ok(()))
                },
                Err(e) => Some(Err(e)),
            }
        } else if string_eq_str(key, "fade_in") {
            match self.expr_to_seconds(v, fps, "fade_in") {
                Ok(x) => {
                    ir.fade_in_sec = Some(x);
                    Some(Ok(()))
                },
                Err(e) => Some(Err(e)),
            }
        } else if string_eq_str(key, "fade_out") {
            match self.expr_to_seconds(v, fps, "fade_out") {
                Ok(x) => {
                    ir.fade_out_sec = Some(x);
                    Some(Ok(()))
                },
                Err(e) => Some(Err(e)),
            }
        } else if string_eq_str(key, "volume") {
            match self.expr_to_f64(v, "volume") {
                Ok(x) => {
                    ir.volume = Some(x);
                    Some(Ok(()))
                },
                Err(e) => Some(Err(e)),
            }
        } else if string_eq_str(key, "speed") {
            match self.expr_to_f64(v, "speed") {
                Ok(x) => {
                    ir.speed = Some(x);
                    Some(Ok(()))
                },
                Err(e) => Some(Err(e)),
            }
        } else if string_eq_str(key, "brightness") {
            match self.expr_to_f64(v, "brightness") {
                Ok(x) => {
                    ir.brightness = Some(x);
                    Some(Ok(()))
                },
                Err(e) => Some(Err(e)),
            }
        } else if string_eq_str(key, "contrast") {
            match self.expr_to_f64(v, "contrast") {
                Ok(x) => {
                    ir.contrast = Some(x);
                    Some(Ok(()))
                },
                Err(e) => Some(Err(e)),
            }
        } else if string_eq_str(key, "saturation") {
            match self.expr_to_f64(v, "saturation") {
                Ok(x) => {
                    ir.saturation = Some(x);
                    Some(Ok(()))
                },
                Err(e) => Some(Err(e)),
            }
        } else if string_eq_str(key, "rotate") {
            match self.expr_to_f64(v, "rotate") {
                Ok(x) => {
                    ir.rotate = Some(x);
                    Some(Ok(()))
                },
                Err(e) => Some(Err(e)),
            }
        } else {
            None
        }
    }

    /// The clip after a range-checked attribute; `None` for other keys.
    #[verifier::rlimit(30)]
    fn apply_clip_ranged(&self, ir: &mut IrClip, key: &String, v: &Expression, name: &String) -> (r: Option<Result<(), VeacError>>)
        ensures
            r matches Some(Err(e)) ==> e.span is None,
            clip_apply_ranged(old(ir)@, key@, v@, name@) == match r {
                Some(Ok(_)) => Some(Ok(final(ir)@)),
                Some(Err(e)) => Some(Err(e@)),
                None => None::<Result<IrClipView, crate::error::ErrView>>,
            },
            r is None ==> final(ir)@ == old(ir)@,
    {
        if string_eq_str(key, "zoom") {
            let x = match self.expr_to_f64(v, "zoom") {
                Ok(x) => x,
                Err(e) => {
                    return Some(Err(e));
                },
            };
            match validate_range(x, Fixed { raw: 1000000000 }, Fixed { raw: 10000000000 }, name.as_str(), "zoom") {
                Ok(y) => {
                    ir.zoom = Some(y);
                    Some(Ok(()))
                },
                Err(e) => Some(Err(e)),
            }
        } else if string_eq_str(key, "blur") {
            let x = match self.expr_to_f64(v, "blur") {
                Ok(x) => x,
                Err(e) => {
                    return Some(Err(e));
                },
            };
            match validate_range(x, Fixed { raw: 0 }, Fixed { raw: 100000000000 }, name.as_str(), "blur") {
                Ok(y) => {
                    ir.blur = Some(y);
                    Some(Ok(()))
                },
                Err(e) => Some(Err(e)),
            }
        } else if string_eq_str(key, "opacity") {
            let x = match self.expr_to_f64(v, "opacity") {
                Ok(x) => x,
                Err(e) => {
                    return Some(Err(e));
                },
            };
            match validate_range(x, Fixed { raw: 0 }, Fixed { raw: 1000000000 }, name.as_str(), "opacity") {
                Ok(y) => {
                    ir.opacity = Some(y);
                    Some(Ok(()))
                },
                Err(e) => Some(Err(e)),
            }
        } else if string_eq_str(key, "vignette") {
            let x = match self.expr_to_f64(v, "vignette") {
                Ok(x) => x,
                Err(e) => {
                    return Some(Err(e));
                },
            };
            match validate_range(x, Fixed { raw: 0 }, Fixed { raw: 1000000000 }, name.as_str(), "vignette") {
                Ok(y) => {
                    ir.vignette = Some(y);
                    Some(Ok(()))
                },
                Err(e) => Some(Err(e)),
            }
        } else if string_eq_str(key, "grain") {
            let x = match self.expr_to_f64(v, "grain") {
                Ok(x) => x,
                Err(e) => {
                    return Some(Err(e));
                },
            };
            match validate_range(x, Fixed { raw: 0 }, Fixed { raw: 1000000000 }, name.as_str(), "grain") {
                Ok(y) => {
                    ir.grain = Some(y);
                    Some(Ok(()))
                },
                Err(e) => Some(Err(e)),
            }
        } else if string_eq_str(key, "pan_x") {
            let x = match self.expr_to_f64(v, "pan_x") {
                Ok(x) => x,
                Err(e) => {
                    return Some(Err(e));
                },
            };
            match validate_range(x, Fixed { raw: -1000000000 }, Fixed { raw: 1000000000 }, name.as_str(), "pan_x") {
                Ok(y) => {
                    ir.pan_x = Some(y);
                    Some(Ok(()))
                },
                Err(e) => Some(Err(e)),
            }
        } else if string_eq_str(key, "pan_y") {
            let x = match self.expr_to_f64(v, "pan_y") {
                Ok(x) => x,
                Err(e) => {
                    return Some(Err(e));
                },
            };
            match validate_range(x, Fixed { raw: -1000000000 }, Fixed { raw: 1000000000 }, name.as_str(), "pan_y") {
                Ok(y) => {
                    ir.pan_y = Some(y);
                    Some(Ok(()))
                },
                Err(e) => Some(Err(e)),
            }
        } else if string_eq_str(key, "sharpen") {
            let x = match self.expr_to_f64(v, "sharpen") {
                Ok(x) => x,
                Err(e) => {
                    return Some(Err(e));
                },
            };
            match validate_gt(x, Fixed { raw: 0 }, name.as_str(), "sharpen") {
                Ok(y) => {
                    ir.sharpen = Some(y);
                    Some(Ok(()))
                },
                Err(e) => Some(Err(e)),
            }
        } else {
            None
        }
    }

    /// The clip after a crop, flip or chroma key attribute; `None` for other keys.
    #[verifier::rlimit(30)]
    fn apply_clip_text(&self, ir: &mut IrClip, key: &String, v: &Expression, name: &String) -> (r: Option<Result<(), VeacError>>)
        ensures
            r matches Some(Err(e)) ==> e.span is None,
            clip_apply_text(old(ir)@, key@, v@, name@) == match r {
                Some(Ok(_)) => Some(Ok(final(ir)@)),
                Some(Err(e)) => Some(Err(e@)),
                None => None::<Result<IrClipView, crate::error::ErrView>>,
            },
            r is None ==> final(ir)@ == old(ir)@,
    {
        if string_eq_str(key, "crop") {
            if let Expression::StringLit(s) = v {
                let cs = chars_of(s.as_str());
                if !(has_char_exec(cs.as_slice(), 'x') && has_char_exec(cs.as_slice(), '+')) {
                    let mut msg = String::new();
                    push_clip_prefix(&mut msg, name.as_str());
                    push_str(&mut msg, "crop must be in WxH+X+Y format, got ");
                    push_tick(&mut msg, s.as_str());
                    let e = VeacError::new(ErrorKind::InvalidValue, msg, None).with_hint(string_of(
                        "example: crop = \"640x480+100+50\"",
                    ));
                    assert(e@.message =~= clip_msg(name@, "crop must be in WxH+X+Y format, got "@ + tick(s@)));
                    return Some(Err(e));
                }
                ir.crop = Some(s.clone());
            }
            Some(Ok(()))
        } else if string_eq_str(key, "flip") {
            if let Expression::StringLit(s) = v {
                if string_eq_str(s, "horizontal") || string_eq_str(s, "vertical") || string_eq_str(s, "both") {
                    ir.flip = Some(s.clone());
                } else {
                    let mut msg = String::new();
                    push_clip_prefix(&mut msg, name.as_str());
                    push_str(&mut msg, "unknown flip mode ");
                    push_tick(&mut msg, s.as_str());
                    let e = VeacError::new(ErrorKind::InvalidValue, msg, None).with_hint(string_of(
                        "supported: horizontal, vertical, both",
                    ));
                    assert(e@.message =~= clip_msg(name@, "unknown flip mode "@ + tick(s@)));
                    return Some(Err(e));
                }
            }
            Some(Ok(()))
        } else if string_eq_str(key, "chromakey") {
            match v {
                Expression::StringLit(s) => {
                    ir.chromakey = Some(s.clone());
                    Some(Ok(()))
                },
                Expression::ColorLit(c) => {
                    let mut t = String::new();
                    string_push(&mut t, '#');
                    push_str(&mut t, c.as_str());
                    assert(t@ =~= seq!['#'] + c@);
                    ir.chromakey = Some(t);
                    Some(Ok(()))
                },
                _ => {
                    let mut msg = String::new();
                    push_clip_prefix(&mut msg, name.as_str());
                    push_str(&mut msg, "chromakey expects a color or string");
                    let e = VeacError::new(ErrorKind::TypeMismatch, msg, None).with_hint(string_of(
                        "example: chromakey = \"green\" or chromakey = #00FF00",
                    ));
                    assert(e@.message =~= clip_msg(name@, "chromakey expects a color or string"@));
                    Some(Err(e))
                },
            }
        } else {
            None
        }
    }

    /// The clip after a switch or loop-count attribute; unchanged for other keys.
    fn apply_clip_flag(&self, ir: &mut IrClip, key: &String, v: &Expression, name: &String) -> (r: Result<(), VeacError>)
        ensures
            r matches Err(e) ==> e.span is None,
            clip_apply_flag(old(ir)@, key@, v@, name@) == match r {
                Ok(_) => Ok(final(ir)@),
                Err(e) => Err(e@),
            },
    {
        if string_eq_str(key, "reverse") {
            ir.reverse = Some(self.expr_to_bool(v, "reverse")?);
        } else if string_eq_str(key, "normalize") {
            ir.normalize = Some(self.expr_to_bool(v, "normalize")?);
        } else if string_eq_str(key, "stabilize") {
            ir.stabilize = Some(self.expr_to_bool(v, "stabilize")?);
        } else if string_eq_str(key, "loop") {
            let n = self.expr_to_u32(v, "loop")?;
            if n == 0 {
                let mut msg = String::new();
                push_clip_prefix(&mut msg, name.as_str());
                push_str(&mut msg, "loop count must be >= 1");
                let e = plain_error(ErrorKind::InvalidValue, msg);
                assert(e@.message =~= clip_msg(name@, "loop count must be >= 1"@));
                return Err(e);
            }
            ir.loop_count = Some(n);
        }
        Ok(())
    }

    /// The clip after the attribute `key = v` of the clip `name`.
    fn apply_clip_attr(&self, ir: &mut IrClip, key: &String, v: &Expression, fps: u32, name: &String) -> (r: Result<(), VeacError>)
        ensures
            r matches Err(e) ==> e.span is None,
            clip_apply(old(ir)@, key@, v@, fps, name@) == match r {
                Ok(_) => Ok(final(ir)@),
                Err(e) => Err(e@),
            },
    {
        proof {
            reveal(clip_apply);
        }
        match self.apply_clip_timing(ir, key, v, fps) {
            Some(r) => r,
            None => match self.apply_clip_ranged(ir, key, v, name) {
                Some(r) => r,
                None => match self.apply_clip_text(ir, key, v, name) {
                    Some(r) => r,
                    None => self.apply_clip_flag(ir, key, v, name),
                },
            },
        }
    }

    /// The checks made on a clip once all its attributes are read.
    #[verifier::rlimit(30)]
    fn check_clip(ir: &IrClip, name: &String) -> (r: Result<(), VeacError>)
        ensures
            r matches Err(e) ==> e.span is None,
            clip_post(ir@, name@) == match r {
                Ok(_) => Ok(ir@),
                Err(e) => Err(e@),
            },
    {
        reveal(clip_post);
        if let (Some(from), Some(to)) = (ir.from_sec, ir.to_sec) {
            if from.raw >= to.raw {
                let mut msg = String::new();
                push_clip_prefix(&mut msg, name.as_str());
                push_str(&mut msg, "`from` (");
                push_str(&mut msg, from.text().as_str());
                push_str(&mut msg, "s) must be less than `to` (");
                push_str(&mut msg, to.text().as_str());
                push_str(&mut msg, "s)");
                let e = plain_error(ErrorKind::InvalidTimeRange, msg);
                assert(e@.message =~= clip_msg(name@, "`from` ("@ + fixed_text(from.raw as int)
                    + "s) must be less than `to` ("@ + fixed_text(to.raw as int) + "s)"@));
                return Err(e);
            }
        }
        if let Some(v) = ir.volume {
            validate_range(v, Fixed { raw: 0 }, Fixed { raw: 1_000_000_000 }, name.as_str(), "volume")?;
        }
        if let Some(v) = ir.speed {
            if v.raw <= 0 || v.raw > 100_000_000_000 {
                let mut msg = String::new();
                push_clip_prefix(&mut msg, name.as_str());
                push_str(&mut msg, "speed ");
                push_str(&mut msg, v.text().as_str());
                push_str(&mut msg, " is out of range, must be > 0.0 and <= 100.0");
                let e = plain_error(ErrorKind::InvalidValue, msg);
                assert(e@.message =~= clip_msg(name@, "speed "@ + fixed_text(v.raw as int)
                    + " is out of range, must be > 0.0 and <= 100.0"@));
                return Err(e);
            }
        }
        if let Some(v) = ir.brightness {
            validate_range(v, Fixed { raw: -1_000_000_000 }, Fixed { raw: 1_000_000_000 }, name.as_str(), "brightness")?;
        }
        if let Some(v) = ir.contrast {
            validate_range(v, Fixed { raw: 0 }, Fixed { raw: 3_000_000_000 }, name.as_str(), "contrast")?;
        }
        if let Some(v) = ir.saturation {
            validate_range(v, Fixed { raw: 0 }, Fixed { raw: 3_000_000_000 }, name.as_str(), "saturation")?;
        }
        Ok(())
    }

    /// The resolved clip of a `clip` block.
    #[verifier::loop_isolation(false)]
    #[verifier::rlimit(30)]
    pub fn resolve_clip(&self, clip: &ClipDecl, assets: &Vec<IrAsset>, variables: &Vec<LetDecl>, fps: u32) -> (r: Result<IrClip, VeacError>)
        ensures
            r matches Err(e) ==> e.span is None,
            resolve_clip_spec(clip@, assets_view(assets@), lets_view(variables@), fps) == res_view(r),
    {
        let idx = match find_asset_index(assets, &clip.asset_ref) {
            Some(i) => i,
            None => {
                return Err(undefined_asset_error(&clip.asset_ref, "video"));
            },
        };
        let mut ir = clip_for(&assets[idx]);
        let ghost init = ir@;
        let ghost attrs = clip@.1;
        let ghost step = clip_step(lets_view(variables@), fps, clip@.0);
        let name = &clip.asset_ref;
        let mut i: usize = 0;
        assert(attrs.take(0) =~= Seq::<AttrView>::empty());
        while i < clip.attributes.len()
            invariant
                i <= clip.attributes@.len(),
                attrs == clip@.1,
                attrs.len() == clip.attributes@.len(),
                name@ == clip@.0,
                step == clip_step(lets_view(variables@), fps, clip@.0),
                fold_attrs(attrs.take(i as int), init, step) == Ok::<IrClipView, crate::error::ErrView>(ir@),
            decreases clip.attributes@.len() - i,
        {
            proof {
                lemma_fold_attrs_step(attrs, i as int, init, step);
            }
            let attr = &clip.attributes[i];
            assert(attrs[i as int] == attr@);
            let val = match self.resolve_expression(&attr.value, variables) {
                Ok(v) => v,
                Err(e) => {
                    proof {
                        lemma_fold_attrs_err(attrs, i + 1, init, step);
                    }
                    return Err(e);
                },
            };
            match self.apply_clip_attr(&mut ir, &attr.key, &val, fps, name) {
                Ok(_) => {},
                Err(e) => {
                    proof {
                        lemma_fold_attrs_err(attrs, i + 1, init, step);
                    }
                    return Err(e);
                },
            }
            i = i + 1;
        }
        assert(attrs.take(i as int) =~= attrs);
        SemanticAnalyzer::check_clip(&ir, name)?;
        Ok(ir)
    }
}

} // verus!
