//! Resolution of text and image overlays, transitions, gaps, freeze
//! frames, picture-in-picture, outputs, the timeline and the whole program.
use vstd::prelude::*;
use crate::ast::{
    attrs_view, Expression, AttrView, Attribute, GapDecl, ImageOverlayDecl, FreezeDecl, LetDecl, OutputDecl, PipDecl, Program,
    TextOverlayDecl, TimelineDecl, TrackDecl, TrackItem, TrackKind, TransitionDecl, BlockView, ItemView, TrackView,
};
use crate::error::{ErrView, ErrorKind, VeacError};
use crate::fixed::{fixed_text, Fixed};
use crate::ir::{
    IrAsset, IrFreeze, IrGap, IrImageOverlay, IrItemView, IrOutputConfig, IrOutputConfigView, IrPip, IrProgram,
    IrSubtitle, IrTextOverlay, IrTimeline, IrTrack, IrTrackItem, IrTrackKind, IrTrackView, IrTransition,
};
use crate::ir_kinds::{Position, TransitionKind};
use crate::resolve_clip::{assets_view, find_asset_index, undefined_asset_error};
use crate::semantic::{lets_view, plain_error, push_tick, res_plain, res_view, SemanticAnalyzer};
use crate::semantic_spec::{
    all_ok, analyze_spec, fold_attrs, freeze_apply, freeze_init, freeze_step, gap_apply, gap_step, image_apply,
    image_init, image_step, item_fn, item_spec, lemma_all_ok_err, lemma_all_ok_step, lemma_fold_attrs_err,
    lemma_fold_attrs_step, output_apply, output_fn, output_init, output_step, pip_apply, pip_init, pip_step,
    resolve_freeze_spec, resolve_gap_spec, resolve_image_spec, resolve_output_spec, resolve_outputs_spec,
    resolve_pip_spec, resolve_text_spec, resolve_transition_spec, text_apply, text_init, text_step, tick,
    timeline_spec, track_fn, track_spec, transition_apply, transition_hint, transition_step,
};
use crate::split::{join_path_exec, trim_start_chars};
use crate::text::{chars_of, push_str, string_eq_str, string_from_chars, string_of};

verus! {

/// The views of a run of resolved track items.
pub open spec fn ir_items_view(v: Seq<IrTrackItem>) -> Seq<IrItemView> {
    v.map_values(|i: IrTrackItem| i@)
}

/// The views of a run of resolved tracks.
pub open spec fn ir_tracks_view(v: Seq<IrTrack>) -> Seq<IrTrackView> {
    v.map_values(|t: IrTrack| t@)
}

/// The views of a run of resolved outputs.
pub open spec fn outputs_view(v: Seq<IrOutputConfig>) -> Seq<IrOutputConfigView> {
    v.map_values(|o: IrOutputConfig| o@)
}

impl SemanticAnalyzer {

    /// The text after the attribute `key = v`.
    fn apply_text_attr(&self, st: &mut IrTextOverlay, key: &String, v: &Expression, fps: u32) -> (r: Result<(), VeacError>)
        ensures
            r matches Err(e) ==> e.span is None,
            text_apply(old(st)@, key@, v@, fps) == match r {
                Ok(_) => Ok(final(st)@),
                Err(e) => Err(e@),
            },
    {
        reveal(text_apply);
        if string_eq_str(key, "at") {
            st.at_sec = self.expr_to_seconds(v, fps, "at")?;
        } else if string_eq_str(key, "duration") {
            st.duration_sec = self.expr_to_seconds(v, fps, "duration")?;
        } else if string_eq_str(key, "font") {
            if let Expression::StringLit(s) = v {
                st.font = s.clone();
            }
        } else if string_eq_str(key, "size") {
            st.size = self.expr_to_u32(v, "size")?;
        } else if string_eq_str(key, "color") {
            match v {
                Expression::ColorLit(c) => {
                    st.color = c.clone();
                },
                Expression::StringLit(c) => {
                    let cs = chars_of(c.as_str());
                    let t = trim_start_chars(cs.as_slice(), '#');
                    st.color = string_from_chars(t.as_slice());
                },
                _ => {},
            }
        } else if string_eq_str(key, "position") {
            if let Expression::StringLit(s) = v {
                st.position = SemanticAnalyzer::parse_position(s.as_str())?;
            }
        } else if string_eq_str(key, "fade_in") {
            st.fade_in_sec = Some(self.expr_to_seconds(v, fps, "fade_in")?);
        } else if string_eq_str(key, "fade_out") {
            st.fade_out_sec = Some(self.expr_to_seconds(v, fps, "fade_out")?);
        }
        Ok(())
    }

    /// The image after the attribute `key = v`.
    fn apply_image_attr(&self, st: &mut IrImageOverlay, key: &String, v: &Expression, fps: u32) -> (r: Result<(), VeacError>)
        ensures
            r matches Err(e) ==> e.span is None,
            image_apply(old(st)@, key@, v@, fps) == match r {
                Ok(_) => Ok(final(st)@),
                Err(e) => Err(e@),
            },
    {
        reveal(image_apply);
        if string_eq_str(key, "at") {
            st.at_sec = self.expr_to_seconds(v, fps, "at")?;
        } else if string_eq_str(key, "duration") {
            st.duration_sec = self.expr_to_seconds(v, fps, "duration")?;
        } else if string_eq_str(key, "position") {
            if let Expression::StringLit(s) = v {
                st.position = SemanticAnalyzer::parse_position(s.as_str())?;
            }
        } else if string_eq_str(key, "scale") {
            let x = self.expr_to_f64(v, "scale")?;
            if !(0 <= x.raw && x.raw <= 10_000_000_000) {
                let mut msg = string_of("scale ");
                push_str(&mut msg, x.text().as_str());
                push_str(&mut msg, " is out of range, must be 0.0 to 10.0");
                let e = plain_error(ErrorKind::InvalidValue, msg);
                assert(e@.message =~= "scale "@ + fixed_text(x.raw as int) + " is out of range, must be 0.0 to 10.0"@);
                return Err(e);
            }
            st.scale = Some(x);
        } else if string_eq_str(key, "opacity") {
            let x = self.expr_to_f64(v, "opacity")?;
            if !(0 <= x.raw && x.raw <= 1_000_000_000) {
                let mut msg = string_of("opacity ");
                push_str(&mut msg, x.text().as_str());
                push_str(&mut msg, " is out of range, must be 0.0 to 1.0");
                let e = plain_error(ErrorKind::InvalidValue, msg);
                assert(e@.message =~= "opacity "@ + fixed_text(x.raw as int) + " is out of range, must be 0.0 to 1.0"@);
                return Err(e);
            }
            st.opacity = Some(x);
        }
        Ok(())
    }

    /// The transition after the attribute `key = v`.
    fn apply_transition_attr(&self, st: &mut IrTransition, key: &String, v: &Expression, fps: u32) -> (r: Result<(), VeacError>)
        ensures
            r matches Err(e) ==> e.span is None,
            transition_apply(*old(st), key@, v@, fps) == match r {
                Ok(_) => Ok(*final(st)),
                Err(e) => Err(e@),
            },
    {
        reveal(transition_apply);
        if string_eq_str(key, "type") {
            if let Expression::StringLit(s) = v {
                match TransitionKind::from_str(s.as_str()) {
                    Some(k) => {
                        st.kind = k;
                    },
                    None => {
                        let mut msg = string_of("unknown transition type ");
                        push_tick(&mut msg, s.as_str());
                        let e = VeacError::new(ErrorKind::InvalidValue, msg, None).with_hint(string_of(
                            "supported: fade, fadeblack, fadewhite, dissolve, wipe-left, wipe-right, wipe-up, wipe-down, slide-left, slide-right, slide-up, slide-down, zoom-in, smooth-left, smooth-right, smooth-up, smooth-down, squeeze-h, squeeze-v, circlecrop, pixelize",
                        ));
                        assert(e@.message =~= "unknown transition type "@ + tick(s@));
                        return Err(e);
                    },
                }
            }
        } else if string_eq_str(key, "duration") {
            st.duration_sec = self.expr_to_seconds(v, fps, "duration")?;
        }
        Ok(())
    }

    /// The gap after the attribute `key = v`.
    fn apply_gap_attr(&self, st: &mut IrGap, key: &String, v: &Expression, fps: u32) -> (r: Result<(), VeacError>)
        ensures
            r matches Err(e) ==> e.span is None,
            gap_apply(*old(st), key@, v@, fps) == match r {
                Ok(_) => Ok(*final(st)),
                Err(e) => Err(e@),
            },
    {
        reveal(gap_apply);
        if string_eq_str(key, "duration") {
            st.duration_sec = self.expr_to_seconds(v, fps, "duration")?;
        }
        Ok(())
    }

    /// The freeze after the attribute `key = v`.
    fn apply_freeze_attr(&self, st: &mut IrFreeze, key: &String, v: &Expression, fps: u32) -> (r: Result<(), VeacError>)
        ensures
            r matches Err(e) ==> e.span is None,
            freeze_apply(old(st)@, key@, v@, fps) == match r {
                Ok(_) => Ok(final(st)@),
                Err(e) => Err(e@),
            },
    {
        reveal(freeze_apply);
        if string_eq_str(key, "at") {
            st.at_sec = self.expr_to_seconds(v, fps, "at")?;
        } else if string_eq_str(key, "duration") {
            st.duration_sec = self.expr_to_seconds(v, fps, "duration")?;
        }
        Ok(())
    }

    /// The pip after the attribute `key = v`.
    fn apply_pip_attr(&self, st: &mut IrPip, key: &String, v: &Expression, fps: u32) -> (r: Result<(), VeacError>)
        ensures
            r matches Err(e) ==> e.span is None,
            pip_apply(old(st)@, key@, v@, fps) == match r {
                Ok(_) => Ok(final(st)@),
                Err(e) => Err(e@),
            },
    {
        reveal(pip_apply);
        if string_eq_str(key, "from") {
            st.from_sec = Some(self.expr_to_seconds(v, fps, "from")?);
        } else if string_eq_str(key, "to") {
            st.to_sec = Some(self.expr_to_seconds(v, fps, "to")?);
        } else if string_eq_str(key, "at") {
            st.at_sec = self.expr_to_seconds(v, fps, "at")?;
        } else if string_eq_str(key, "duration") {
            st.duration_sec = self.expr_to_seconds(v, fps, "duration")?;
        } else if string_eq_str(key, "position") {
            if let Expression::StringLit(s) = v {
                st.position = SemanticAnalyzer::parse_position(s.as_str())?;
            }
        } else if string_eq_str(key, "scale") {
            st.scale = self.expr_to_f64(v, "scale")?;
        }
        Ok(())
    }

    /// The output after the attribute `key = v`.
    fn apply_output_attr(&self, st: &mut IrOutputConfig, key: &String, v: &Expression) -> (r: Result<(), VeacError>)
        ensures
            r matches Err(e) ==> e.span is None,
            output_apply(old(st)@, key@, v@) == match r {
                Ok(_) => Ok(final(st)@),
                Err(e) => Err(e@),
            },
    {
        reveal(output_apply);
        if string_eq_str(key, "resolution") {
            let (w, h) = SemanticAnalyzer::parse_resolution(v)?;
            st.width = Some(w);
            st.height = Some(h);
        } else if string_eq_str(key, "format") {
            st.format = Some(SemanticAnalyzer::parse_format(v)?);
        } else if string_eq_str(key, "codec") {
            st.codec = Some(SemanticAnalyzer::parse_codec(v)?);
        } else if string_eq_str(key, "quality") {
            st.quality = Some(SemanticAnalyzer::parse_quality(v)?);
        }
        Ok(())
    }

    /// The resolved text overlay of a `text` block.
    #[verifier::loop_isolation(false)]
    pub fn resolve_text_overlay(&self, decl: &TextOverlayDecl, variables: &Vec<LetDecl>, fps: u32) -> (r: Result<IrTextOverlay, VeacError>)
        ensures
            r matches Err(e) ==> e.span is None,
            resolve_text_spec(decl@, lets_view(variables@), fps) == res_view(r),
    {
        let mut st = IrTextOverlay {
            content: decl.content.clone(),
            at_sec: Fixed { raw: 0 },
            duration_sec: Fixed { raw: 5_000_000_000 },
            font: string_of("Arial"),
            size: 24,
            color: string_of("FFFFFF"),
            position: Position::Center,
            fade_in_sec: None,
            fade_out_sec: None,
        };
        let ghost init = st@;
        let ghost attrs = attrs_view(decl.attributes@);
        let ghost step = text_step(lets_view(variables@), fps);
        let mut i: usize = 0;
        assert(attrs.take(0) =~= Seq::<AttrView>::empty());
        while i < decl.attributes.len()
            invariant
                i <= decl.attributes@.len(),
                attrs == attrs_view(decl.attributes@),
                step == text_step(lets_view(variables@), fps),
                fold_attrs(attrs.take(i as int), init, step) == Ok::<_, ErrView>(st@),
            decreases decl.attributes@.len() - i,
        {
            proof {
                lemma_fold_attrs_step(attrs, i as int, init, step);
            }
            let attr = &decl.attributes[i];
            assert(attrs[i as int] == attr@);
            let val = match self.resolve_expression(&attr.value, variables) {
                Ok(v) => v,
                Err(e) => {
                    proof {
                        lemma_fold_attrs_err(attrs, i + 1, init, step);
                    }
                    return Err(e);
                },
            };
            match self.apply_text_attr(&mut st, &attr.key, &val, fps) {
                Ok(_) => {},
                Err(e) => {
                    proof {
                        lemma_fold_attrs_err(attrs, i + 1, init, step);
                    }
                    return Err(e);
                },
            }
            i = i + 1;
        }
        assert(attrs.take(i as int) =~= attrs);
        Ok(st)
    }

    /// The resolved image overlay of an `image` block.
    #[verifier::loop_isolation(false)]
    pub fn resolve_image_overlay(&self, decl: &ImageOverlayDecl, assets: &Vec<IrAsset>, variables: &Vec<LetDecl>, fps: u32) -> (r: Result<IrImageOverlay, VeacError>)
        ensures
            r matches Err(e) ==> e.span is None,
            resolve_image_spec(decl@, assets_view(assets@), lets_view(variables@), fps) == res_view(r),
    {
        let idx = match find_asset_index(assets, &decl.asset_ref) {
            Some(i) => i,
            None => {
                return Err(undefined_asset_error(&decl.asset_ref, "image"));
            },
        };
        let a = &assets[idx];
        let mut st = IrImageOverlay {
            asset_name: a.name.clone(),
            asset_path: a.path.clone(),
            at_sec: Fixed { raw: 0 },
            duration_sec: Fixed { raw: 5_000_000_000 },
            position: Position::TopRight,
            scale: None,
            opacity: None,
        };
        let ghost init = st@;
        let ghost attrs = attrs_view(decl.attributes@);
        let ghost step = image_step(lets_view(variables@), fps);
        let mut i: usize = 0;
        assert(attrs.take(0) =~= Seq::<AttrView>::empty());
        while i < decl.attributes.len()
            invariant
                i <= decl.attributes@.len(),
                attrs == attrs_view(decl.attributes@),
                step == image_step(lets_view(variables@), fps),
                fold_attrs(attrs.take(i as int), init, step) == Ok::<_, ErrView>(st@),
            decreases decl.attributes@.len() - i,
        {
            proof {
                lemma_fold_attrs_step(attrs, i as int, init, step);
            }
            let attr = &decl.attributes[i];
            assert(attrs[i as int] == attr@);
            let val = match self.resolve_expression(&attr.value, variables) {
                Ok(v) => v,
                Err(e) => {
                    proof {
                        lemma_fold_attrs_err(attrs, i + 1, init, step);
                    }
                    return Err(e);
                },
            };
            match self.apply_image_attr(&mut st, &attr.key, &val, fps) {
                Ok(_) => {},
                Err(e) => {
                    proof {
                        lemma_fold_attrs_err(attrs, i + 1, init, step);
                    }
                    return Err(e);
                },
            }
            i = i + 1;
        }
        assert(attrs.take(i as int) =~= attrs);
        Ok(st)
    }

    /// The resolved transition of a `transition` block.
    #[verifier::loop_isolation(false)]
    pub fn resolve_transition(&self, decl: &TransitionDecl, variables: &Vec<LetDecl>, fps: u32) -> (r: Result<IrTransition, VeacError>)
        ensures
            r matches Err(e) ==> e.span is None,
            resolve_transition_spec(decl@, lets_view(variables@), fps) == res_plain(r),
    {
        let mut st = IrTransition { kind: TransitionKind::Fade, duration_sec: Fixed { raw: 1_000_000_000 } };
        let ghost init = st;
        let ghost attrs = attrs_view(decl.attributes@);
        let ghost step = transition_step(lets_view(variables@), fps);
        let mut i: usize = 0;
        assert(attrs.take(0) =~= Seq::<AttrView>::empty());
        while i < decl.attributes.len()
            invariant
                i <= decl.attributes@.len(),
                attrs == attrs_view(decl.attributes@),
                step == transition_step(lets_view(variables@), fps),
                fold_attrs(attrs.take(i as int), init, step) == Ok::<_, ErrView>(st),
            decreases decl.attributes@.len() - i,
        {
            proof {
                lemma_fold_attrs_step(attrs, i as int, init, step);
            }
            let attr = &decl.attributes[i];
            assert(attrs[i as int] == attr@);
            let val = match self.resolve_expression(&attr.value, variables) {
                Ok(v) => v,
                Err(e) => {
                    proof {
                        lemma_fold_attrs_err(attrs, i + 1, init, step);
                    }
                    return Err(e);
                },
            };
            match self.apply_transition_attr(&mut st, &attr.key, &val, fps) {
                Ok(_) => {},
                Err(e) => {
                    proof {
                        lemma_fold_attrs_err(attrs, i + 1, init, step);
                    }
                    return Err(e);
                },
            }
            i = i + 1;
        }
        assert(attrs.take(i as int) =~= attrs);
        Ok(st)
    }

    /// The resolved gap of a `gap` block.
    #[verifier::loop_isolation(false)]
    pub fn resolve_gap(&self, decl: &GapDecl, variables: &Vec<LetDecl>, fps: u32) -> (r: Result<IrGap, VeacError>)
        ensures
            r matches Err(e) ==> e.span is None,
            resolve_gap_spec(decl@, lets_view(variables@), fps) == res_plain(r),
    {
        let mut st = IrGap { duration_sec: Fixed { raw: 1_000_000_000 } };
        let ghost init = st;
        let ghost attrs = attrs_view(decl.attributes@);
        let ghost step = gap_step(lets_view(variables@), fps);
        let mut i: usize = 0;
        assert(attrs.take(0) =~= Seq::<AttrView>::empty());
        while i < decl.attributes.len()
            invariant
                i <= decl.attributes@.len(),
                attrs == attrs_view(decl.attributes@),
                step == gap_step(lets_view(variables@), fps),
                fold_attrs(attrs.take(i as int), init, step) == Ok::<_, ErrView>(st),
            decreases decl.attributes@.len() - i,
        {
            proof {
                lemma_fold_attrs_step(attrs, i as int, init, step);
            }
            let attr = &decl.attributes[i];
            assert(attrs[i as int] == attr@);
            let val = match self.resolve_expression(&attr.value, variables) {
                Ok(v) => v,
                Err(e) => {
                    proof {
                        lemma_fold_attrs_err(attrs, i + 1, init, step);
                    }
                    return Err(e);
                },
            };
            match self.apply_gap_attr(&mut st, &attr.key, &val, fps) {
                Ok(_) => {},
                Err(e) => {
                    proof {
                        lemma_fold_attrs_err(attrs, i + 1, init, step);
                    }
                    return Err(e);
                },
            }
            i = i + 1;
        }
        assert(attrs.take(i as int) =~= attrs);
        Ok(st)
    }

    /// The resolved freeze frame of a `freeze` block.
    #[verifier::loop_isolation(false)]
    pub fn resolve_freeze(&self, decl: &FreezeDecl, assets: &Vec<IrAsset>, variables: &Vec<LetDecl>, fps: u32) -> (r: Result<IrFreeze, VeacError>)
        ensures
            r matches Err(e) ==> e.span is None,
            resolve_freeze_spec(decl@, assets_view(assets@), lets_view(variables@), fps) == res_view(r),
    {
        let idx = match find_asset_index(assets, &decl.asset_ref) {
            Some(i) => i,
            None => {
                return Err(undefined_asset_error(&decl.asset_ref, "video"));
            },
        };
        let a = &assets[idx];
        let mut st = IrFreeze {
            asset_name: a.name.clone(),
            asset_path: a.path.clone(),
            at_sec: Fixed { raw: 0 },
            duration_sec: Fixed { raw: 1_000_000_000 },
        };
        let ghost init = st@;
        let ghost attrs = attrs_view(decl.attributes@);
        let ghost step = freeze_step(lets_view(variables@), fps);
        let mut i: usize = 0;
        assert(attrs.take(0) =~= Seq::<AttrView>::empty());
        while i < decl.attributes.len()
            invariant
                i <= decl.attributes@.len(),
                attrs == attrs_view(decl.attributes@),
                step == freeze_step(lets_view(variables@), fps),
                fold_attrs(attrs.take(i as int), init, step) == Ok::<_, ErrView>(st@),
            decreases decl.attributes@.len() - i,
        {
            proof {
                lemma_fold_attrs_step(attrs, i as int, init, step);
            }
            let attr = &decl.attributes[i];
            assert(attrs[i as int] == attr@);
            let val = match self.resolve_expression(&attr.value, variables) {
                Ok(v) => v,
                Err(e) => {
                    proof {
                        lemma_fold_attrs_err(attrs, i + 1, init, step);
                    }
                    return Err(e);
                },
            };
            match self.apply_freeze_attr(&mut st, &attr.key, &val, fps) {
                Ok(_) => {},
                Err(e) => {
                    proof {
                        lemma_fold_attrs_err(attrs, i + 1, init, step);
                    }
                    return Err(e);
                },
            }
            i = i + 1;
        }
        assert(attrs.take(i as int) =~= attrs);
        Ok(st)
    }

    /// The resolved picture-in-picture of a `pip` block.
    #[verifier::loop_isolation(false)]
    pub fn resolve_pip(&self, decl: &PipDecl, assets: &Vec<IrAsset>, variables: &Vec<LetDecl>, fps: u32) -> (r: Result<IrPip, VeacError>)
        ensures
            r matches Err(e) ==> e.span is None,
            resolve_pip_spec(decl@, assets_view(assets@), lets_view(variables@), fps) == res_view(r),
    {
        let idx = match find_asset_index(assets, &decl.asset_ref) {
            Some(i) => i,
            None => {
                return Err(undefined_asset_error(&decl.asset_ref, "video"));
            },
        };
        let a = &assets[idx];
        let mut st = IrPip {
            asset_name: a.name.clone(),
            asset_path: a.path.clone(),
            from_sec: None,
            to_sec: None,
            at_sec: Fixed { raw: 0 },
            duration_sec: Fixed { raw: 5_000_000_000 },
            position: Position::BottomRight,
            scale: Fixed { raw: 250_000_000 },
        };
        let ghost init = st@;
        let ghost attrs = attrs_view(decl.attributes@);
        let ghost step = pip_step(lets_view(variables@), fps);
        let mut i: usize = 0;
        assert(attrs.take(0) =~= Seq::<AttrView>::empty());
        while i < decl.attributes.len()
            invariant
                i <= decl.attributes@.len(),
                attrs == attrs_view(decl.attributes@),
                step == pip_step(lets_view(variables@), fps),
                fold_attrs(attrs.take(i as int), init, step) == Ok::<_, ErrView>(st@),
            decreases decl.attributes@.len() - i,
        {
            proof {
                lemma_fold_attrs_step(attrs, i as int, init, step);
            }
            let attr = &decl.attributes[i];
            assert(attrs[i as int] == attr@);
            let val = match self.resolve_expression(&attr.value, variables) {
                Ok(v) => v,
                Err(e) => {
                    proof {
                        lemma_fold_attrs_err(attrs, i + 1, init, step);
                    }
                    return Err(e);
                },
            };
            match self.apply_pip_attr(&mut st, &attr.key, &val, fps) {
                Ok(_) => {},
                Err(e) => {
                    proof {
                        lemma_fold_attrs_err(attrs, i + 1, init, step);
                    }
                    return Err(e);
                },
            }
            i = i + 1;
        }
        assert(attrs.take(i as int) =~= attrs);
        Ok(st)
    }

    /// The resolved output of an `output` block.
    #[verifier::loop_isolation(false)]
    pub fn resolve_output(&self, decl: &OutputDecl, variables: &Vec<LetDecl>) -> (r: Result<IrOutputConfig, VeacError>)
        ensures
            r matches Err(e) ==> e.span is None,
            resolve_output_spec(self.base_dir@, decl@, lets_view(variables@)) == res_view(r),
    {
        let mut st = IrOutputConfig {
            path: join_path_exec(self.base_dir.as_str(), decl.path.as_str()),
            width: None,
            height: None,
            format: None,
            codec: None,
            quality: None,
        };
        let ghost init = st@;
        let ghost attrs = attrs_view(decl.attributes@);
        let ghost step = output_step(lets_view(variables@));
        let mut i: usize = 0;
        assert(attrs.take(0) =~= Seq::<AttrView>::empty());
        while i < decl.attributes.len()
            invariant
                i <= decl.attributes@.len(),
                attrs == attrs_view(decl.attributes@),
                step == output_step(lets_view(variables@)),
                fold_attrs(attrs.take(i as int), init, step) == Ok::<_, ErrView>(st@),
            decreases decl.attributes@.len() - i,
        {
            proof {
                lemma_fold_attrs_step(attrs, i as int, init, step);
            }
            let attr = &decl.attributes[i];
            assert(attrs[i as int] == attr@);
            let val = match self.resolve_expression(&attr.value, variables) {
                Ok(v) => v,
                Err(e) => {
                    proof {
                        lemma_fold_attrs_err(attrs, i + 1, init, step);
                    }
                    return Err(e);
                },
            };
            match self.apply_output_attr(&mut st, &attr.key, &val) {
                Ok(_) => {},
                Err(e) => {
                    proof {
                        lemma_fold_attrs_err(attrs, i + 1, init, step);
                    }
                    return Err(e);
                },
            }
            i = i + 1;
        }
        assert(attrs.take(i as int) =~= attrs);
        Ok(st)
    }

    /// The resolved outputs, or the first error among them.
    pub fn resolve_outputs(&self, outputs: &Vec<OutputDecl>, variables: &Vec<LetDecl>) -> (r: Result<Vec<IrOutputConfig>, VeacError>)
        ensures
            r matches Err(e) ==> e.span is None,
            resolve_outputs_spec(self.base_dir@, output_decls_view(outputs@), lets_view(variables@)) == match r {
                Ok(v) => Ok(outputs_view(v@)),
                Err(e) => Err(e@),
            },
    {
        let ghost xs = output_decls_view(outputs@);
        let ghost f = output_fn(self.base_dir@, lets_view(variables@));
        let mut configs: Vec<IrOutputConfig> = Vec::new();
        let mut i: usize = 0;
        assert(xs.take(0) =~= Seq::<BlockView>::empty());
        assert(outputs_view(configs@) =~= Seq::<IrOutputConfigView>::empty());
        while i < outputs.len()
            invariant
                i <= outputs@.len(),
                xs == output_decls_view(outputs@),
                f == output_fn(self.base_dir@, lets_view(variables@)),
                all_ok(xs.take(i as int), f) == Ok::<_, ErrView>(outputs_view(configs@)),
            decreases outputs@.len() - i,
        {
            proof {
                lemma_all_ok_step(xs, i as int, f);
            }
            let c = match self.resolve_output(&outputs[i], variables) {
                Ok(c) => c,
                Err(e) => {
                    proof {
                        lemma_all_ok_err(xs, i + 1, f);
                    }
                    return Err(e);
                },
            };
            let ghost before = outputs_view(configs@);
            configs.push(c);
            assert(outputs_view(configs@) =~= before.push(c@));
            i = i + 1;
        }
        assert(xs.take(i as int) =~= xs);
        Ok(configs)
    }

    /// The resolved form of one track item.
    pub fn resolve_item(&self, item: &TrackItem, assets: &Vec<IrAsset>, variables: &Vec<LetDecl>, fps: u32) -> (r: Result<IrTrackItem, VeacError>)
        ensures
            r matches Err(e) ==> e.span is None,
            item_spec(item@, self.base_dir@, assets_view(assets@), lets_view(variables@), fps) == res_view(r),
    {
        match item {
            TrackItem::Clip(c) => Ok(IrTrackItem::Clip(self.resolve_clip(c, assets, variables, fps)?)),
            TrackItem::TextOverlay(t) => Ok(IrTrackItem::TextOverlay(self.resolve_text_overlay(t, variables, fps)?)),
            TrackItem::Transition(t) => Ok(IrTrackItem::Transition(self.resolve_transition(t, variables, fps)?)),
            TrackItem::ImageOverlay(d) => Ok(IrTrackItem::ImageOverlay(self.resolve_image_overlay(d, assets, variables, fps)?)),
            TrackItem::Gap(g) => Ok(IrTrackItem::Gap(self.resolve_gap(g, variables, fps)?)),
            TrackItem::Freeze(d) => Ok(IrTrackItem::Freeze(self.resolve_freeze(d, assets, variables, fps)?)),
            TrackItem::Pip(d) => Ok(IrTrackItem::Pip(self.resolve_pip(d, assets, variables, fps)?)),
            TrackItem::Subtitle(d) => Ok(IrTrackItem::Subtitle(IrSubtitle { path: join_path_exec(self.base_dir.as_str(), d.path.as_str()) })),
        }
    }

    /// The resolved form of one track.
    pub fn resolve_track(&self, decl: &TrackDecl, assets: &Vec<IrAsset>, variables: &Vec<LetDecl>, fps: u32) -> (r: Result<IrTrack, VeacError>)
        ensures
            r matches Err(e) ==> e.span is None,
            track_spec(decl@, self.base_dir@, assets_view(assets@), lets_view(variables@), fps) == res_view(r),
    {
        let kind = match decl.kind {
            TrackKind::Video => IrTrackKind::Video,
            TrackKind::Audio => IrTrackKind::Audio,
            TrackKind::Text => IrTrackKind::Text,
            TrackKind::Overlay => IrTrackKind::Overlay,
        };
        let ghost xs = decl@.1;
        let ghost f = item_fn(self.base_dir@, assets_view(assets@), lets_view(variables@), fps);
        let mut items: Vec<IrTrackItem> = Vec::new();
        let mut i: usize = 0;
        assert(xs.take(0) =~= Seq::<ItemView>::empty());
        assert(ir_items_view(items@) =~= Seq::<IrItemView>::empty());
        while i < decl.items.len()
            invariant
                i <= decl.items@.len(),
                xs == decl@.1,
                xs.len() == decl.items@.len(),
                f == item_fn(self.base_dir@, assets_view(assets@), lets_view(variables@), fps),
                all_ok(xs.take(i as int), f) == Ok::<_, ErrView>(ir_items_view(items@)),
            decreases decl.items@.len() - i,
        {
            proof {
                lemma_all_ok_step(xs, i as int, f);
            }
            assert(xs[i as int] == decl.items@[i as int]@);
            let it = match self.resolve_item(&decl.items[i], assets, variables, fps) {
                Ok(it) => it,
                Err(e) => {
                    proof {
                        lemma_all_ok_err(xs, i + 1, f);
                    }
                    return Err(e);
                },
            };
            let ghost before = ir_items_view(items@);
            items.push(it);
            assert(ir_items_view(items@) =~= before.push(it@));
            i = i + 1;
        }
        assert(xs.take(i as int) =~= xs);
        Ok(IrTrack { kind, items })
    }

    /// The resolved timeline.
    pub fn resolve_timeline(&self, decl: &TimelineDecl, assets: &Vec<IrAsset>, variables: &Vec<LetDecl>, fps: u32) -> (r: Result<IrTimeline, VeacError>)
        ensures
            r matches Err(e) ==> e.span is None,
            timeline_spec(decl@, self.base_dir@, assets_view(assets@), lets_view(variables@), fps) == res_view(r),
    {
        let ghost xs = decl@.1;
        let ghost f = track_fn(self.base_dir@, assets_view(assets@), lets_view(variables@), fps);
        let mut tracks: Vec<IrTrack> = Vec::new();
        let mut i: usize = 0;
        assert(xs.take(0) =~= Seq::<TrackView>::empty());
        assert(ir_tracks_view(tracks@) =~= Seq::<IrTrackView>::empty());
        while i < decl.tracks.len()
            invariant
                i <= decl.tracks@.len(),
                xs == decl@.1,
                xs.len() == decl.tracks@.len(),
                f == track_fn(self.base_dir@, assets_view(assets@), lets_view(variables@), fps),
                all_ok(xs.take(i as int), f) == Ok::<_, ErrView>(ir_tracks_view(tracks@)),
            decreases decl.tracks@.len() - i,
        {
            proof {
                lemma_all_ok_step(xs, i as int, f);
            }
            assert(xs[i as int] == decl.tracks@[i as int]@);
            let t = match self.resolve_track(&decl.tracks[i], assets, variables, fps) {
                Ok(t) => t,
                Err(e) => {
                    proof {
                        lemma_all_ok_err(xs, i + 1, f);
                    }
                    return Err(e);
                },
            };
            let ghost before = ir_tracks_view(tracks@);
            tracks.push(t);
            assert(ir_tracks_view(tracks@) =~= before.push(t@));
            i = i + 1;
        }
        assert(xs.take(i as int) =~= xs);
        Ok(IrTimeline { name: decl.name.clone(), tracks })
    }

    /// Analyze a parsed program and produce the validated program. The
    /// declarations of included files are to be merged into `program`
    /// beforehand (see `merge_included`); its `includes` are not read here.
    #[verifier::rlimit(30)]
    pub fn analyze(&self, program: &Program) -> (r: Result<IrProgram, VeacError>)
        ensures
            r matches Err(e) ==> e.span is None,
            analyze_spec(self.base_dir@, program@) == res_view(r),
    {
        let project_decl = match &program.project {
            Some(p) => p,
            None => {
                return Err(VeacError::new(ErrorKind::NoProject, string_of("missing `project` declaration"), None).with_hint(
                    string_of("add a `project \"name\" { ... }` block at the top of the file"),
                ));
            },
        };
        if program.timelines.len() == 0 {
            return Err(VeacError::new(ErrorKind::NoTimeline, string_of("no `timeline` declaration found"), None).with_hint(
                string_of("add a `timeline main { ... }` block"),
            ));
        }
        let variables = self.resolve_variables(&program.variables)?;
        let project = self.resolve_project(project_decl, &variables)?;
        let assets = self.resolve_assets(&program.assets)?;
        let timeline = self.resolve_timeline(&program.timelines[0], &assets, &variables, project.fps)?;
        let outputs = self.resolve_outputs(&program.outputs, &variables)?;
        Ok(IrProgram { project, assets, timeline, outputs })
    }
}

/// The views of a run of output declarations.
pub open spec fn output_decls_view(v: Seq<OutputDecl>) -> Seq<BlockView> {
    v.map_values(|o: OutputDecl| o@)
}

} // verus!
