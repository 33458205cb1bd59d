//! Text overlays, image overlays, picture-in-picture and subtitles laid
//! over a video stream.
use vstd::prelude::*;
use crate::clips::{input_idx, stream_label};
use crate::clips_spec::{fadd, fsub, input_index, stream, step_if};
use crate::filter_graph::{g_binary, g_unary, texts, FilterGraph, GraphView};
use crate::filters::{
    drawtext_text, escape_quotes, opacity_text, overlay_text, push_escaped, push_fixed, push_u64, scale_text,
    trim_text, whole_upto,
};
use crate::fixed::{fixed_text, Fixed, SCALE};
use crate::ir::{IrImageOverlay, IrImageOverlayView, IrPip, IrPipView, IrSubtitle, IrTextOverlay, IrTextOverlayView};
use crate::ir_kinds::{overlay_xy, text_xy};
use crate::text::{chars_of, nat_text, push_str, string_from_chars, string_of, string_push};

verus! {

/// The text of a number.
pub open spec fn ft(x: Fixed) -> Seq<char> {
    fixed_text(x.raw as int)
}

/// The alpha expression that fades a text in over `fi` seconds from
/// `start`, and out over `fo` seconds before `end`; none without fades.
pub open spec fn alpha_text(start: Fixed, end: Fixed, fade_in: Option<Fixed>, fade_out: Option<Fixed>) -> Option<Seq<char>> {
    match (fade_in, fade_out) {
        (None, None) => None,
        (Some(fi), None) => Some(
            "if(lt(t\\,"@ + ft(fadd(start, fi)) + ")\\,(t-"@ + ft(start) + ")/"@ + ft(fi) + "\\,1)"@,
        ),
        (None, Some(fo)) => Some(
            "if(gt(t\\,"@ + ft(fsub(end, fo)) + ")\\,("@ + ft(end) + "-t)/"@ + ft(fo) + "\\,1)"@,
        ),
        (Some(fi), Some(fo)) => Some(
            "if(lt(t\\,"@ + ft(fadd(start, fi)) + ")\\,(t-"@ + ft(start) + ")/"@ + ft(fi) + "\\,if(gt(t\\,"@ + ft(
                fsub(end, fo),
            ) + ")\\,("@ + ft(end) + "-t)/"@ + ft(fo) + "\\,1))"@,
        ),
    }
}

/// One text overlay drawn on the stream `cur`.
pub open spec fn g_text_overlay(g: GraphView, ov: IrTextOverlayView, cur: Seq<char>) -> (GraphView, Seq<char>) {
    let xy = text_xy(ov.position);
    let end = fadd(ov.at_sec, ov.duration_sec);
    g_unary(g, "txt"@, cur, drawtext_text(
        ov.content,
        ov.font,
        ov.size,
        ov.color,
        xy.0,
        xy.1,
        ov.at_sec,
        end,
        alpha_text(ov.at_sec, end, ov.fade_in_sec, ov.fade_out_sec),
    ))
}

/// The text overlays drawn one after the other.
#[verifier::opaque]
pub open spec fn g_text_overlays(g: GraphView, ovs: Seq<IrTextOverlayView>, v: Seq<char>) -> (GraphView, Seq<char>)
    decreases ovs.len(),
{
    if ovs.len() == 0 {
        (g, v)
    } else {
        let r = g_text_overlays(g, ovs.drop_last(), v);
        g_text_overlay(r.0, ovs.last(), r.1)
    }
}

/// One image overlay laid on the stream `cur`: the image scaled and made
/// translucent as asked, then overlaid between its times.
pub open spec fn g_image_overlay(g: GraphView, ov: IrImageOverlayView, cur: Seq<char>, names: Seq<Seq<char>>) -> (GraphView, Seq<char>) {
    let img = stream(input_index(names, ov.asset_name), ":v"@);
    let scaled = match ov.scale {
        Some(sc) => g_unary(g, "sc"@, img, scale_text("iw*"@ + ft(sc), "ih*"@ + ft(sc))),
        None => (g, img),
    };
    let op = match ov.opacity {
        Some(o) => step_if(o.raw < SCALE, scaled, g_unary(scaled.0, "op"@, scaled.1, opacity_text(o))),
        None => scaled,
    };
    let xy = overlay_xy(ov.position);
    g_binary(op.0, "ov"@, cur, op.1, overlay_text(xy.0, xy.1, ov.at_sec, fadd(ov.at_sec, ov.duration_sec)))
}

/// The image overlays laid one after the other.
#[verifier::opaque]
pub open spec fn g_image_overlays(g: GraphView, ovs: Seq<IrImageOverlayView>, v: Seq<char>, names: Seq<Seq<char>>) -> (GraphView, Seq<char>)
    decreases ovs.len(),
{
    if ovs.len() == 0 {
        (g, v)
    } else {
        let r = g_image_overlays(g, ovs.drop_last(), v, names);
        g_image_overlay(r.0, ovs.last(), r.1, names)
    }
}

/// The size of a picture-in-picture along a side of `target` pixels.
pub open spec fn pip_side(target: u32, scale: Fixed) -> nat {
    whole_upto(target * scale.raw, u32::MAX as int)
}

/// One picture-in-picture laid on the stream `cur`: its source trimmed,
/// scaled to a fraction of the output, and overlaid between its times.
pub open spec fn g_pip_overlay(g: GraphView, p: IrPipView, cur: Seq<char>, names: Seq<Seq<char>>, tw: u32, th: u32) -> (GraphView, Seq<char>) {
    let t = g_unary(g, "tv"@, stream(input_index(names, p.asset_name), ":v"@), trim_text(
        "trim"@,
        p.from_sec,
        p.to_sec,
        ",setpts=PTS-STARTPTS"@,
    ));
    let sc = g_unary(t.0, "sc"@, t.1, scale_text(nat_text(pip_side(tw, p.scale)), nat_text(pip_side(th, p.scale))));
    let xy = overlay_xy(p.position);
    g_binary(sc.0, "ov"@, cur, sc.1, overlay_text(xy.0, xy.1, p.at_sec, fadd(p.at_sec, p.duration_sec)))
}

/// The pictures-in-picture laid one after the other.
#[verifier::opaque]
pub open spec fn g_pip_overlays(g: GraphView, ps: Seq<IrPipView>, v: Seq<char>, names: Seq<Seq<char>>, tw: u32, th: u32) -> (GraphView, Seq<char>)
    decreases ps.len(),
{
    if ps.len() == 0 {
        (g, v)
    } else {
        let r = g_pip_overlays(g, ps.drop_last(), v, names, tw, th);
        g_pip_overlay(r.0, ps.last(), r.1, names, tw, th)
    }
}

/// `p` with each `\` turned into `/`.
pub open spec fn forward_slashes(p: Seq<char>) -> Seq<char> {
    p.map_values(|c: char| if c == '\\' { '/' } else { c })
}

/// The subtitles filter for the file at `path`.
pub open spec fn subtitles_text(path: Seq<char>) -> Seq<char> {
    "subtitles=filename='"@ + escape_quotes(forward_slashes(path)) + "'"@
}

/// The subtitle files burnt in one after the other.
#[verifier::opaque]
pub open spec fn g_subtitles(g: GraphView, subs: Seq<Seq<char>>, v: Seq<char>) -> (GraphView, Seq<char>)
    decreases subs.len(),
{
    if subs.len() == 0 {
        (g, v)
    } else {
        let r = g_subtitles(g, subs.drop_last(), v);
        g_unary(r.0, "sub"@, r.1, subtitles_text(subs.last()))
    }
}

/// The alpha expression for text fades, if there are any.
fn build_text_alpha_expr(start: Fixed, end: Fixed, fade_in: Option<Fixed>, fade_out: Option<Fixed>) -> (r: Option<String>)
    ensures
        alpha_text(start, end, fade_in, fade_out) == match r {
            Some(s) => Some(s@),
            None => None,
        },
{
    match (fade_in, fade_out) {
        (None, None) => None,
        (Some(fi), None) => {
            let mut s = string_of("if(lt(t\\,");
            push_fixed(&mut s, start.add(fi));
            push_str(&mut s, ")\\,(t-");
            push_fixed(&mut s, start);
            push_str(&mut s, ")/");
            push_fixed(&mut s, fi);
            push_str(&mut s, "\\,1)");
            assert(s@ =~= "if(lt(t\\,"@ + ft(fadd(start, fi)) + ")\\,(t-"@ + ft(start) + ")/"@ + ft(fi) + "\\,1)"@);
            Some(s)
        },
        (None, Some(fo)) => {
            let mut s = string_of("if(gt(t\\,");
            push_fixed(&mut s, end.sub(fo));
            push_str(&mut s, ")\\,(");
            push_fixed(&mut s, end);
            push_str(&mut s, "-t)/");
            push_fixed(&mut s, fo);
            push_str(&mut s, "\\,1)");
            assert(s@ =~= "if(gt(t\\,"@ + ft(fsub(end, fo)) + ")\\,("@ + ft(end) + "-t)/"@ + ft(fo) + "\\,1)"@);
            Some(s)
        },
        (Some(fi), Some(fo)) => {
            let mut s = string_of("if(lt(t\\,");
            push_fixed(&mut s, start.add(fi));
            push_str(&mut s, ")\\,(t-");
            push_fixed(&mut s, start);
            push_str(&mut s, ")/");
            push_fixed(&mut s, fi);
            push_str(&mut s, "\\,if(gt(t\\,");
            push_fixed(&mut s, end.sub(fo));
            push_str(&mut s, ")\\,(");
            push_fixed(&mut s, end);
            push_str(&mut s, "-t)/");
            push_fixed(&mut s, fo);
            push_str(&mut s, "\\,1))");
            assert(s@ =~= "if(lt(t\\,"@ + ft(fadd(start, fi)) + ")\\,(t-"@ + ft(start) + ")/"@ + ft(fi) + "\\,if(gt(t\\,"@
                + ft(fsub(end, fo)) + ")\\,("@ + ft(end) + "-t)/"@ + ft(fo) + "\\,1))"@);
            Some(s)
        },
    }
}

/// Drawtext filters chained onto a video stream, with fade-in and fade-out
/// through the alpha channel.
pub fn apply_text_overlays(overlays: &[&IrTextOverlay], video_label: &str, graph: &mut FilterGraph) -> (out: String)
    requires
        old(graph)@.counter + overlays@.len() <= usize::MAX,
    ensures
        (final(graph)@, out@) == g_text_overlays(old(graph)@, overlays@.map_values(|o: &IrTextOverlay| o@), video_label@),
        final(graph)@.counter <= old(graph)@.counter + overlays@.len(),
{
    reveal(g_text_overlays);
    let ghost view = overlays@.map_values(|o: &IrTextOverlay| o@);
    let ghost g0 = graph@;
    let mut current = string_of(video_label);
    let mut i: usize = 0;
    assert(view.take(0) =~= Seq::<IrTextOverlayView>::empty());
    while i < overlays.len()
        invariant
            i <= overlays@.len(),
            view == overlays@.map_values(|o: &IrTextOverlay| o@),
            g0.counter + overlays@.len() <= usize::MAX,
            graph@.counter <= g0.counter + i,
            g_text_overlays(g0, view.take(i as int), video_label@) == (graph@, current@),
        decreases overlays@.len() - i,
    {
        proof {
            reveal(g_text_overlays);
        }
        let ov = overlays[i];
        assert(view.take(i + 1).drop_last() =~= view.take(i as int));
        assert(view.take(i + 1).last() == ov@);
        let (x, y) = ov.position.to_ffmpeg_xy();
        let end = ov.at_sec.add(ov.duration_sec);
        let alpha = build_text_alpha_expr(ov.at_sec, end, ov.fade_in_sec, ov.fade_out_sec);
        let a: Option<&str> = match &alpha {
            Some(s) => Some(s.as_str()),
            None => None,
        };
        current = graph.add_drawtext_with_alpha(
            current.as_str(),
            ov.content.as_str(),
            ov.font.as_str(),
            ov.size,
            ov.color.as_str(),
            x,
            y,
            ov.at_sec,
            end,
            a,
        );
        i = i + 1;
    }
    assert(view.take(i as int) =~= view);
    current
}

/// Image overlays laid onto a video stream.
pub fn apply_image_overlays(overlays: &[&IrImageOverlay], video_label: &str, input_map: &Vec<String>, graph: &mut FilterGraph) -> (out: String)
    requires
        forall|i: int| 0 <= i < overlays@.len() ==> texts(input_map@).contains(#[trigger] overlays@[i]@.asset_name),
        old(graph)@.counter + 3 * overlays@.len() <= usize::MAX,
    ensures
        (final(graph)@, out@) == g_image_overlays(
            old(graph)@,
            overlays@.map_values(|o: &IrImageOverlay| o@),
            video_label@,
            texts(input_map@),
        ),
        final(graph)@.counter <= old(graph)@.counter + 3 * overlays@.len(),
{
    reveal(g_image_overlays);
    let ghost view = overlays@.map_values(|o: &IrImageOverlay| o@);
    let ghost names = texts(input_map@);
    let ghost g0 = graph@;
    let mut current = string_of(video_label);
    let mut i: usize = 0;
    assert(view.take(0) =~= Seq::<IrImageOverlayView>::empty());
    while i < overlays.len()
        invariant
            i <= overlays@.len(),
            view == overlays@.map_values(|o: &IrImageOverlay| o@),
            names == texts(input_map@),
            forall|i: int| 0 <= i < overlays@.len() ==> names.contains(#[trigger] overlays@[i]@.asset_name),
            g0.counter + 3 * overlays@.len() <= usize::MAX,
            graph@.counter <= g0.counter + 3 * i,
            g_image_overlays(g0, view.take(i as int), video_label@, names) == (graph@, current@),
        decreases overlays@.len() - i,
    {
        proof {
            reveal(g_image_overlays);
        }
        let ov = overlays[i];
        assert(view.take(i + 1).drop_last() =~= view.take(i as int));
        assert(view.take(i + 1).last() == ov@);
        assert(names.contains(overlays@[i as int]@.asset_name));
        let idx = input_idx(input_map, &ov.asset_name);
        let img_in = stream_label(idx, ":v");
        let scaled = match ov.scale {
            Some(scale) => {
                let mut w = string_of("iw*");
                push_fixed(&mut w, scale);
                let mut h = string_of("ih*");
                push_fixed(&mut h, scale);
                graph.add_scale(img_in.as_str(), w.as_str(), h.as_str())
            },
            None => img_in,
        };
        let with_opacity = match ov.opacity {
            Some(opacity) => {
                if opacity.raw < 1_000_000_000 {
                    let out = graph.next_label("op");
                    let mut e = string_of("format=rgba,colorchannelmixer=aa=");
                    push_fixed(&mut e, opacity);
                    let ins = vec![scaled];
                    let outs = vec![out.clone()];
                    assert(texts(ins@) =~= seq![ins@[0]@]);
                    assert(texts(outs@) =~= seq![out@]);
                    graph.add(ins, e.as_str(), outs);
                    out
                } else {
                    scaled
                }
            },
            None => scaled,
        };
        let (x, y) = ov.position.to_overlay_xy();
        let end = ov.at_sec.add(ov.duration_sec);
        current = graph.add_overlay(current.as_str(), with_opacity.as_str(), x, y, ov.at_sec, end);
        i = i + 1;
    }
    assert(view.take(i as int) =~= view);
    current
}

/// The size along a side of `target` pixels scaled by `scale`.
fn scaled_side(target: u32, scale: Fixed) -> (n: u64)
    ensures
        n == pip_side(target, scale),
{
    assert(-9_223_372_036_854_775_808 * 4_294_967_295 <= target * scale.raw <= 9_223_372_036_854_775_807 * 4_294_967_295)
        by (nonlinear_arith)
        requires
            -9_223_372_036_854_775_808 <= scale.raw <= 9_223_372_036_854_775_807,
            0 <= target <= 4_294_967_295,
    ;
    let x: i128 = (target as i128) * (scale.raw as i128);
    if x <= 0 {
        0
    } else if x / 1_000_000_000 > 4_294_967_295 {
        4_294_967_295
    } else {
        (x / 1_000_000_000) as u64
    }
}

/// Pictures-in-picture laid onto a video stream.
pub fn apply_pip_overlays(
    pips: &[&IrPip],
    video_label: &str,
    input_map: &Vec<String>,
    graph: &mut FilterGraph,
    target_w: u32,
    target_h: u32,
) -> (out: String)
    requires
        forall|i: int| 0 <= i < pips@.len() ==> texts(input_map@).contains(#[trigger] pips@[i]@.asset_name),
        old(graph)@.counter + 3 * pips@.len() <= usize::MAX,
    ensures
        (final(graph)@, out@) == g_pip_overlays(
            old(graph)@,
            pips@.map_values(|p: &IrPip| p@),
            video_label@,
            texts(input_map@),
            target_w,
            target_h,
        ),
        final(graph)@.counter <= old(graph)@.counter + 3 * pips@.len(),
{
    reveal(g_pip_overlays);
    let ghost view = pips@.map_values(|p: &IrPip| p@);
    let ghost names = texts(input_map@);
    let ghost g0 = graph@;
    let mut current = string_of(video_label);
    let mut i: usize = 0;
    assert(view.take(0) =~= Seq::<IrPipView>::empty());
    while i < pips.len()
        invariant
            i <= pips@.len(),
            view == pips@.map_values(|p: &IrPip| p@),
            names == texts(input_map@),
            forall|i: int| 0 <= i < pips@.len() ==> names.contains(#[trigger] pips@[i]@.asset_name),
            g0.counter + 3 * pips@.len() <= usize::MAX,
            graph@.counter <= g0.counter + 3 * i,
            g_pip_overlays(g0, view.take(i as int), video_label@, names, target_w, target_h) == (graph@, current@),
        decreases pips@.len() - i,
    {
        proof {
            reveal(g_pip_overlays);
        }
        let pip = pips[i];
        assert(view.take(i + 1).drop_last() =~= view.take(i as int));
        assert(view.take(i + 1).last() == pip@);
        assert(names.contains(pips@[i as int]@.asset_name));
        let idx = input_idx(input_map, &pip.asset_name);
        let v_in = stream_label(idx, ":v");
        let trimmed = graph.add_trim(v_in.as_str(), pip.from_sec, pip.to_sec);
        let mut ws = String::new();
        push_u64(&mut ws, scaled_side(target_w, pip.scale));
        let mut hs = String::new();
        push_u64(&mut hs, scaled_side(target_h, pip.scale));
        let scaled = graph.add_scale(trimmed.as_str(), ws.as_str(), hs.as_str());
        let (x, y) = pip.position.to_overlay_xy();
        let end = pip.at_sec.add(pip.duration_sec);
        current = graph.add_overlay(current.as_str(), scaled.as_str(), x, y, pip.at_sec, end);
        i = i + 1;
    }
    assert(view.take(i as int) =~= view);
    current
}

/// Subtitle files burnt onto a video stream.
pub fn apply_subtitles(subs: &[&IrSubtitle], video_label: &str, graph: &mut FilterGraph) -> (out: String)
    requires
        old(graph)@.counter + subs@.len() <= usize::MAX,
    ensures
        (final(graph)@, out@) == g_subtitles(old(graph)@, subs@.map_values(|s: &IrSubtitle| s.path@), video_label@),
        final(graph)@.counter <= old(graph)@.counter + subs@.len(),
{
    reveal(g_subtitles);
    let ghost view = subs@.map_values(|s: &IrSubtitle| s.path@);
    let ghost g0 = graph@;
    let mut current = string_of(video_label);
    let mut i: usize = 0;
    assert(view.take(0) =~= Seq::<Seq<char>>::empty());
    while i < subs.len()
        invariant
            i <= subs@.len(),
            view == subs@.map_values(|s: &IrSubtitle| s.path@),
            g0.counter + subs@.len() <= usize::MAX,
            graph@.counter <= g0.counter + i,
            g_subtitles(g0, view.take(i as int), video_label@) == (graph@, current@),
        decreases subs@.len() - i,
    {
        proof {
            reveal(g_subtitles);
        }
        let sub = subs[i];
        assert(view.take(i + 1).drop_last() =~= view.take(i as int));
        assert(view.take(i + 1).last() == sub.path@);
        let pv = chars_of(sub.path.as_str());
        let mut slashed = String::new();
        let mut k: usize = 0;
        while k < pv.len()
            invariant
                k <= pv@.len(),
                pv@ == sub.path@,
                slashed@ == forward_slashes(pv@).take(k as int),
            decreases pv@.len() - k,
        {
            let c = if pv[k] == '\\' { '/' } else { pv[k] };
            string_push(&mut slashed, c);
            assert(slashed@ =~= forward_slashes(pv@).take(k + 1));
            k = k + 1;
        }
        assert(forward_slashes(pv@).take(k as int) =~= forward_slashes(pv@));
        let mut e = string_of("subtitles=filename='");
        push_escaped(&mut e, slashed.as_str());
        push_str(&mut e, "'");
        assert(e@ =~= subtitles_text(sub.path@));
        let out = graph.next_label("sub");
        let ins = vec![current];
        let outs = vec![out.clone()];
        assert(texts(ins@) =~= seq![ins@[0]@]);
        assert(texts(outs@) =~= seq![out@]);
        graph.add(ins, e.as_str(), outs);
        current = out;
        i = i + 1;
    }
    assert(view.take(i as int) =~= view);
    current
}

} // verus!
