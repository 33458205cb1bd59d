//! What the clip filter chains are: each builder step as a change of the
//! filter graph, the video and audio chain of one clip, and the segments of
//! a video track joined by transitions and concatenation.
use vstd::prelude::*;
use crate::filter_graph::{g_binary, g_source, g_unary, GraphView};
use crate::filters::{
    acrossfade_text, afade_text, blur_text, color_source_text, crop_text, eq_text, flip_text, g_atempo,
    g_chromakey, g_concat, grain_text, opacity_text, rotate_text, scale_text, sharpen_text, silence_text,
    speed_text, tpad_text, trim_text, vignette_text, volume_text, xfade_text, zoompan_text,
};
use crate::fixed::{tdiv, Fixed, SCALE};
use crate::ir::{IrClipView, IrItemView, IrTransition};
use crate::ir_kinds::xfade_name;
use crate::text::nat_text;

verus! {

/// The position of the first `name` in `names`, the number of its input.
pub open spec fn input_index(names: Seq<Seq<char>>, name: Seq<char>) -> nat
    decreases names.len(),
{
    if names.len() == 0 || names[0] == name {
        0
    } else {
        1 + input_index(names.drop_first(), name)
    }
}

/// The stream `kind` (`":v"` or `":a"`) of input number `idx`.
pub open spec fn stream(idx: nat, kind: Seq<char>) -> Seq<char> {
    nat_text(idx) + kind
}

/// `a / b` rounded toward zero to nine decimals, as `Fixed::div` computes it.
pub open spec fn fdiv(a: Fixed, b: Fixed) -> Fixed {
    Fixed::of(tdiv(a.raw * SCALE, b.raw as int))
}

/// `a + b`, saturating, as `Fixed::add` computes it.
pub open spec fn fadd(a: Fixed, b: Fixed) -> Fixed {
    Fixed::of(a.raw + b.raw)
}

/// `a - b`, saturating, as `Fixed::sub` computes it.
pub open spec fn fsub(a: Fixed, b: Fixed) -> Fixed {
    Fixed::of(a.raw - b.raw)
}

/// The larger of `a` and 0.
pub open spec fn at_least_zero(a: Fixed) -> Fixed {
    if a.raw >= 0 { a } else { Fixed { raw: 0 } }
}

/// The length of a clip before any speed change: its duration, else `to -
/// from`, else ten seconds.
pub open spec fn est_raw(c: IrClipView) -> Fixed {
    match c.duration_sec {
        Some(d) => d,
        None => match (c.from_sec, c.to_sec) {
            (Some(f), Some(t)) => fsub(t, f),
            _ => Fixed { raw: 10_000_000_000 },
        },
    }
}

/// The length of a clip once its speed is applied.
pub open spec fn est(c: IrClipView) -> Fixed {
    match c.speed {
        Some(s) => if s.raw != 0 { fdiv(est_raw(c), s) } else { est_raw(c) },
        None => est_raw(c),
    }
}

/// The clip's speed, if set, is positive: a tempo chain ends only then.
pub open spec fn speed_ok(c: IrClipView) -> bool {
    c.speed matches Some(s) ==> s.raw > 0
}

/// A filter step taken only when `cond` holds.
pub open spec fn step_if(cond: bool, gv: (GraphView, Seq<char>), step: (GraphView, Seq<char>)) -> (GraphView, Seq<char>) {
    if cond { step } else { gv }
}

/// The geometric part of a clip's video chain: crop, rotate, flip, scale
/// to the output size, zoom, speed and color.
pub open spec fn g_video_shape(g: GraphView, c: IrClipView, v: Seq<char>, w: u32, h: u32, fps: u32) -> (GraphView, Seq<char>) {
    let s1 = match c.crop {
        Some(s) => g_unary(g, "cr"@, v, crop_text(s)),
        None => (g, v),
    };
    let s2 = match c.rotate {
        Some(d) => g_unary(s1.0, "rot"@, s1.1, rotate_text(d)),
        None => s1,
    };
    let s3 = match c.flip {
        Some(m) => g_unary(s2.0, "fl"@, s2.1, flip_text(m)),
        None => s2,
    };
    let s4 = g_unary(s3.0, "sc"@, s3.1, scale_text(nat_text(w as nat), nat_text(h as nat)));
    let s5 = match c.zoom {
        Some(pk) => g_unary(s4.0, "zp"@, s4.1, zoompan_text(pk, est_raw(c), w, h, fps, c.pan_x, c.pan_y)),
        None => s4,
    };
    let s6 = match c.speed {
        Some(sp) => g_unary(s5.0, "spd"@, s5.1, speed_text(sp)),
        None => s5,
    };
    step_if(
        c.brightness is Some || c.contrast is Some || c.saturation is Some,
        s6,
        g_unary(s6.0, "eq"@, s6.1, eq_text(c.brightness, c.contrast, c.saturation)),
    )
}

/// The filtering effects of a clip's video chain: blur, sharpen, vignette
/// and grain.
pub open spec fn g_video_filters(g: GraphView, c: IrClipView, v: Seq<char>) -> (GraphView, Seq<char>) {
    let s1 = match c.blur {
        Some(b) => g_unary(g, "bl"@, v, blur_text(b)),
        None => (g, v),
    };
    let s2 = match c.sharpen {
        Some(x) => g_unary(s1.0, "shp"@, s1.1, sharpen_text(x)),
        None => s1,
    };
    let s3 = match c.vignette {
        Some(x) => g_unary(s2.0, "vig"@, s2.1, vignette_text(x)),
        None => s2,
    };
    match c.grain {
        Some(x) => g_unary(s3.0, "grn"@, s3.1, grain_text(x)),
        None => s3,
    }
}

/// The compositing effects of a clip's video chain: opacity below 1,
/// reverse, chroma key and stabilization.
pub open spec fn g_video_finish(g: GraphView, c: IrClipView, v: Seq<char>) -> (GraphView, Seq<char>) {
    let s5 = match c.opacity {
        Some(o) => step_if(o.raw < SCALE, (g, v), g_unary(g, "opc"@, v, opacity_text(o))),
        None => (g, v),
    };
    let s6 = step_if(c.reverse == Some(true), s5, g_unary(s5.0, "rev"@, s5.1, "reverse"@));
    let s7 = match c.chromakey {
        Some(k) => g_chromakey(s6.0, s6.1, k),
        None => s6,
    };
    step_if(c.stabilize == Some(true), s7, g_unary(s7.0, "stb"@, s7.1, "deshake"@))
}

/// The effect part of a clip's video chain.
pub open spec fn g_video_look(g: GraphView, c: IrClipView, v: Seq<char>) -> (GraphView, Seq<char>) {
    let s = g_video_filters(g, c, v);
    g_video_finish(s.0, c, s.1)
}

/// The video effect chain of a clip, in its fixed order.
pub open spec fn g_video_effects(g: GraphView, c: IrClipView, v: Seq<char>, w: u32, h: u32, fps: u32) -> (GraphView, Seq<char>) {
    let s = g_video_shape(g, c, v, w, h, fps);
    g_video_look(s.0, c, s.1)
}

/// The audio chain of a clip from input `idx`: its trimmed audio (or
/// silence when it has none), volume, tempo, fades, reverse and
/// normalization.
pub open spec fn g_audio_chain(g: GraphView, c: IrClipView, idx: nat) -> (GraphView, Seq<char>) {
    let s1 = if c.has_audio {
        g_unary(g, "ta"@, stream(idx, ":a"@), trim_text("atrim"@, c.from_sec, c.to_sec, ",asetpts=PTS-STARTPTS"@))
    } else {
        g_source(g, "sil"@, silence_text(est(c)))
    };
    let s2 = match c.volume {
        Some(v) => g_unary(s1.0, "vol"@, s1.1, volume_text(v)),
        None => s1,
    };
    let s3 = match c.speed {
        Some(sp) => g_atempo(s2.0, s2.1, sp),
        None => s2,
    };
    let s4 = match c.fade_in_sec {
        Some(fi) => g_unary(s3.0, "af"@, s3.1, afade_text("in"@, Fixed { raw: 0 }, fi)),
        None => s3,
    };
    let s5 = match c.fade_out_sec {
        Some(fo) => g_unary(s4.0, "af"@, s4.1, afade_text("out"@, at_least_zero(fsub(est(c), fo)), fo)),
        None => s4,
    };
    let s6 = step_if(c.reverse == Some(true), s5, g_unary(s5.0, "arev"@, s5.1, "areverse"@));
    step_if(c.normalize == Some(true), s6, g_unary(s6.0, "ln"@, s6.1, "loudnorm"@))
}

/// One clip's video and audio chains.
pub open spec fn g_process_clip(g: GraphView, c: IrClipView, names: Seq<Seq<char>>, w: u32, h: u32, fps: u32) -> (GraphView, (Seq<char>, Seq<char>)) {
    let idx = input_index(names, c.asset_name);
    let t = g_unary(g, "tv"@, stream(idx, ":v"@), trim_text("trim"@, c.from_sec, c.to_sec, ",setpts=PTS-STARTPTS"@));
    let v = g_video_effects(t.0, c, t.1, w, h, fps);
    let a = g_audio_chain(v.0, c, idx);
    (a.0, (v.1, a.1))
}

/// `k` more copies of a clip's chains, with their labels.
pub open spec fn g_repeat(g: GraphView, c: IrClipView, names: Seq<Seq<char>>, w: u32, h: u32, fps: u32, k: nat) -> (GraphView, Seq<Seq<char>>, Seq<Seq<char>>)
    decreases k,
{
    if k == 0 {
        (g, Seq::empty(), Seq::empty())
    } else {
        let r = g_repeat(g, c, names, w, h, fps, (k - 1) as nat);
        let p = g_process_clip(r.0, c, names, w, h, fps);
        (p.0, r.1.push(p.1.0), r.2.push(p.1.1))
    }
}

/// A clip's segment: its chains, played `loop_count` times in a row when
/// that is more than once.
pub open spec fn g_clip_segment(g: GraphView, c: IrClipView, names: Seq<Seq<char>>, w: u32, h: u32, fps: u32) -> (GraphView, (Seq<char>, Seq<char>)) {
    let p = g_process_clip(g, c, names, w, h, fps);
    match c.loop_count {
        Some(n) => if n > 1 {
            let r = g_repeat(p.0, c, names, w, h, fps, (n - 1) as nat);
            g_concat(r.0, seq![p.1.0] + r.1, seq![p.1.1] + r.2, n as nat)
        } else {
            p
        },
        None => p,
    }
}

/// The state of a video track being turned into filters: the graph, the
/// segments so far, a transition waiting for the next clip, and the running
/// length.
pub struct ClipState {
    pub g: GraphView,
    pub segs: Seq<(Seq<char>, Seq<char>)>,
    pub pending: Option<IrTransition>,
    pub cum: Fixed,
}

/// A clip's segment added to the track: joined to the previous segment by
/// the waiting transition, if any, else appended.
pub open spec fn step_clip(st: ClipState, c: IrClipView, names: Seq<Seq<char>>, w: u32, h: u32, fps: u32) -> ClipState {
    let seg = g_clip_segment(st.g, c, names, w, h, fps);
    let (v, a) = seg.1;
    match st.pending {
        Some(t) => if st.segs.len() > 0 {
            let prev = st.segs.last();
            let offset = at_least_zero(fsub(st.cum, t.duration_sec));
            let xv = g_binary(seg.0, "xf"@, prev.0, v, xfade_text(xfade_name(t.kind), t.duration_sec, offset));
            let xa = g_binary(xv.0, "axf"@, prev.1, a, acrossfade_text(t.duration_sec));
            ClipState {
                g: xa.0,
                segs: st.segs.update(st.segs.len() - 1, (xv.1, xa.1)),
                pending: None,
                cum: fadd(st.cum, fsub(est(c), t.duration_sec)),
            }
        } else {
            ClipState { g: seg.0, pending: None, ..st }
        },
        None => ClipState { g: seg.0, segs: st.segs.push((v, a)), pending: None, cum: fadd(st.cum, est(c)) },
    }
}

/// One video track item turned into filters.
pub open spec fn step_item(st: ClipState, it: IrItemView, names: Seq<Seq<char>>, w: u32, h: u32, fps: u32) -> ClipState {
    match it {
        IrItemView::Clip(c) => step_clip(st, c, names, w, h, fps),
        IrItemView::Transition(t) => ClipState { pending: Some(t), ..st },
        IrItemView::Gap(gap) => {
            let d = gap.duration_sec;
            let v = g_source(st.g, "clr"@, color_source_text(d, w, h, fps, "black"@));
            let a = g_source(v.0, "sil"@, silence_text(d));
            ClipState { g: a.0, segs: st.segs.push((v.1, a.1)), cum: fadd(st.cum, d), ..st }
        },
        IrItemView::Freeze(f) => {
            let idx = input_index(names, f.asset_name);
            let t = g_unary(st.g, "tv"@, stream(idx, ":v"@), trim_text(
                "trim"@,
                Some(f.at_sec),
                Some(fadd(f.at_sec, Fixed { raw: 40_000_000 })),
                ",setpts=PTS-STARTPTS"@,
            ));
            let sc = g_unary(t.0, "sc"@, t.1, scale_text(nat_text(w as nat), nat_text(h as nat)));
            let v = g_unary(sc.0, "tp"@, sc.1, tpad_text(f.duration_sec));
            let a = g_source(v.0, "sil"@, silence_text(f.duration_sec));
            ClipState { g: a.0, segs: st.segs.push((v.1, a.1)), cum: fadd(st.cum, f.duration_sec), ..st }
        },
        _ => st,
    }
}

/// The items turned into filters one after the other.
pub open spec fn fold_items(items: Seq<IrItemView>, st: ClipState, names: Seq<Seq<char>>, w: u32, h: u32, fps: u32) -> ClipState
    decreases items.len(),
{
    if items.len() == 0 {
        st
    } else {
        step_item(fold_items(items.drop_last(), st, names, w, h, fps), items.last(), names, w, h, fps)
    }
}

/// The first and second labels of each segment.
pub open spec fn seg_videos(segs: Seq<(Seq<char>, Seq<char>)>) -> Seq<Seq<char>> {
    segs.map_values(|s: (Seq<char>, Seq<char>)| s.0)
}

pub open spec fn seg_audios(segs: Seq<(Seq<char>, Seq<char>)>) -> Seq<Seq<char>> {
    segs.map_values(|s: (Seq<char>, Seq<char>)| s.1)
}

/// The video and audio labels of a whole track: its one segment, the
/// first input's streams when there is none, else the segments joined.
pub open spec fn finish_segments(st: ClipState) -> (GraphView, (Seq<char>, Seq<char>)) {
    if st.segs.len() == 1 {
        (st.g, st.segs[0])
    } else if st.segs.len() == 0 {
        (st.g, ("0:v"@, "0:a"@))
    } else {
        g_concat(st.g, seg_videos(st.segs), seg_audios(st.segs), st.segs.len())
    }
}

/// The filters of the video track items, and their video and audio labels.
#[verifier::opaque]
pub open spec fn g_clip_filters(g: GraphView, items: Seq<IrItemView>, names: Seq<Seq<char>>, w: u32, h: u32, fps: u32) -> (GraphView, (Seq<char>, Seq<char>)) {
    finish_segments(fold_items(items, ClipState { g, segs: Seq::empty(), pending: None, cum: Fixed { raw: 0 } }, names, w, h, fps))
}

/// How many hundreds of labels an item may need: a clip one per copy and
/// one more, any other item one.
pub open spec fn item_weight(it: IrItemView) -> nat {
    match it {
        IrItemView::Clip(c) => match c.loop_count {
            Some(n) => if n > 1 { n as nat + 1 } else { 2 },
            None => 2,
        },
        _ => 1,
    }
}

/// The weights of the items, added up.
pub open spec fn items_weight(items: Seq<IrItemView>) -> nat
    decreases items.len(),
{
    if items.len() == 0 {
        0
    } else {
        items_weight(items.drop_last()) + item_weight(items.last())
    }
}

/// Each clip and freeze frame of the items reads an input of `names`, and
/// each clip's speed is positive when set.
pub open spec fn items_ready(items: Seq<IrItemView>, names: Seq<Seq<char>>) -> bool {
    forall|i: int| 0 <= i < items.len() ==> match #[trigger] items[i] {
        IrItemView::Clip(c) => names.contains(c.asset_name) && speed_ok(c),
        IrItemView::Freeze(f) => names.contains(f.asset_name),
        _ => true,
    }
}

} // verus!
