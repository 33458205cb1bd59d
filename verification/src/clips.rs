//! Filter chains for the clips of the video track: trims, effects, audio,
//! transitions, gaps, freeze frames and loops.
use vstd::prelude::*;
use crate::clips_spec::{
    at_least_zero, est, est_raw, fadd, finish_segments, fold_items, fsub, g_audio_chain, g_clip_filters,
    g_clip_segment, g_process_clip, g_repeat, g_video_effects, g_video_filters, g_video_finish, g_video_look, g_video_shape, input_index,
    item_weight, items_ready, items_weight, seg_audios, seg_videos, speed_ok, step_clip, step_item, stream,
    ClipState,
};
use crate::filter_graph::{texts, FilterGraph, GraphView};
use crate::fixed::Fixed;
use crate::ir::{IrClip, IrItemView, IrTrackItem, IrTransition};
use crate::filters::push_u64;
use crate::text::{push_str, string_eq_str};

verus! {

/// The views of a run of track items.
pub open spec fn item_refs_view(v: Seq<&IrTrackItem>) -> Seq<IrItemView> {
    v.map_values(|i: &IrTrackItem| i@)
}

/// The views of the segment labels.
pub open spec fn segs_view(v: Seq<(String, String)>) -> Seq<(Seq<char>, Seq<char>)> {
    v.map_values(|s: (String, String)| (s.0@, s.1@))
}

/// The number of the input named `name`.
pub fn input_idx(input_map: &Vec<String>, name: &String) -> (i: usize)
    requires
        texts(input_map@).contains(name@),
    ensures
        i == input_index(texts(input_map@), name@),
        i < input_map@.len(),
{
    let ghost ns = texts(input_map@);
    let mut i: usize = 0;
    assert(ns.skip(0) =~= ns);
    while i < input_map.len()
        invariant
            i <= input_map@.len(),
            ns == texts(input_map@),
            input_index(ns, name@) == i + input_index(ns.skip(i as int), name@),
            forall|k: int| 0 <= k < i ==> ns[k] != name@,
        decreases input_map@.len() - i,
    {
        if string_eq_str(&input_map[i], name.as_str()) {
            return i;
        }
        assert(ns.skip(i as int).drop_first() =~= ns.skip(i + 1));
        i = i + 1;
    }
    assert(false) by {
        let k = choose|k: int| 0 <= k < ns.len() && ns[k] == name@;
    }
    0
}

/// The label of stream `kind` of input `idx`, such as `0:v`.
pub fn stream_label(idx: usize, kind: &str) -> (s: String)
    ensures
        s@ == stream(idx as nat, kind@),
{
    let mut s = String::new();
    push_u64(&mut s, idx as u64);
    push_str(&mut s, kind);
    assert(s@ =~= stream(idx as nat, kind@));
    s
}

/// The decimal text of `n`.
fn u32_text(n: u32) -> (s: String)
    ensures
        s@ == crate::text::nat_text(n as nat),
{
    let mut s = String::new();
    push_u64(&mut s, n as u64);
    assert(s@ =~= crate::text::nat_text(n as nat));
    s
}

/// The length of a clip before any speed change.
pub fn estimate_clip_duration_raw(clip: &IrClip) -> (d: Fixed)
    ensures
        d == est_raw(clip@),
{
    if let Some(d) = clip.duration_sec {
        return d;
    }
    if let (Some(from), Some(to)) = (clip.from_sec, clip.to_sec) {
        return to.sub(from);
    }
    Fixed { raw: 10_000_000_000 }
}

/// The length of a clip once its speed is applied.
pub fn estimate_clip_duration(clip: &IrClip) -> (d: Fixed)
    ensures
        d == est(clip@),
{
    let base = estimate_clip_duration_raw(clip);
    match clip.speed {
        Some(spd) => if spd.raw != 0 { base.div(spd) } else { base },
        None => base,
    }
}

/// The geometric part of a clip's video chain.
#[verifier::rlimit(30)]
fn apply_video_shape(clip: &IrClip, v: String, graph: &mut FilterGraph, width: u32, height: u32, fps: u32) -> (out: String)
    requires
        old(graph)@.counter + 8 <= usize::MAX,
    ensures
        (final(graph)@, out@) == g_video_shape(old(graph)@, clip@, v@, width, height, fps),
        final(graph)@.counter <= old(graph)@.counter + 8,
{
    let mut v = v;
    if let Some(spec) = &clip.crop {
        v = graph.add_crop(v.as_str(), spec.as_str());
    }
    if let Some(deg) = clip.rotate {
        v = graph.add_rotate(v.as_str(), deg);
    }
    if let Some(mode) = &clip.flip {
        v = graph.add_flip(v.as_str(), mode.as_str());
    }
    let ws = u32_text(width);
    let hs = u32_text(height);
    v = graph.add_scale(v.as_str(), ws.as_str(), hs.as_str());
    if let Some(peak) = clip.zoom {
        let dur = estimate_clip_duration_raw(clip);
        v = graph.add_zoompan(v.as_str(), peak, dur, width, height, fps, clip.pan_x, clip.pan_y);
    }
    if let Some(spd) = clip.speed {
        v = graph.add_speed(v.as_str(), spd);
    }
    if clip.brightness.is_some() || clip.contrast.is_some() || clip.saturation.is_some() {
        v = graph.add_eq(v.as_str(), clip.brightness, clip.contrast, clip.saturation);
    }
    v
}

/// The filtering effects of a clip's video chain.
fn apply_video_filters(clip: &IrClip, v: String, graph: &mut FilterGraph) -> (out: String)
    requires
        old(graph)@.counter + 4 <= usize::MAX,
    ensures
        (final(graph)@, out@) == g_video_filters(old(graph)@, clip@, v@),
        final(graph)@.counter <= old(graph)@.counter + 4,
{
    let mut v = v;
    if let Some(b) = clip.blur {
        v = graph.add_blur(v.as_str(), b);
    }
    if let Some(s) = clip.sharpen {
        v = graph.add_sharpen(v.as_str(), s);
    }
    if let Some(x) = clip.vignette {
        v = graph.add_vignette(v.as_str(), x);
    }
    if let Some(g) = clip.grain {
        v = graph.add_grain(v.as_str(), g);
    }
    v
}

/// The compositing effects of a clip's video chain.
#[verifier::rlimit(30)]
fn apply_video_finish(clip: &IrClip, v: String, graph: &mut FilterGraph) -> (out: String)
    requires
        old(graph)@.counter + 6 <= usize::MAX,
    ensures
        (final(graph)@, out@) == g_video_finish(old(graph)@, clip@, v@),
        final(graph)@.counter <= old(graph)@.counter + 6,
{
    let mut v = v;
    if let Some(o) = clip.opacity {
        if o.raw < 1_000_000_000 {
            v = graph.add_opacity(v.as_str(), o);
        }
    }
    if clip.reverse == Some(true) {
        v = graph.add_reverse(v.as_str());
    }
    if let Some(color) = &clip.chromakey {
        v = graph.add_chromakey(v.as_str(), color.as_str());
    }
    if clip.stabilize == Some(true) {
        v = graph.add_deshake(v.as_str());
    }
    v
}

/// The effect part of a clip's video chain.
fn apply_video_look(clip: &IrClip, v: String, graph: &mut FilterGraph) -> (out: String)
    requires
        old(graph)@.counter + 10 <= usize::MAX,
    ensures
        (final(graph)@, out@) == g_video_look(old(graph)@, clip@, v@),
        final(graph)@.counter <= old(graph)@.counter + 10,
{
    let v = apply_video_filters(clip, v, graph);
    apply_video_finish(clip, v, graph)
}

/// The full video effect chain of a clip, in its fixed order: crop, rotate,
/// flip, scale, zoompan, speed, eq, blur, sharpen, vignette, grain,
/// opacity, reverse, chroma key, stabilize.
pub fn apply_video_effects(clip: &IrClip, v: String, graph: &mut FilterGraph, width: u32, height: u32, fps: u32) -> (out: String)
    requires
        old(graph)@.counter + 18 <= usize::MAX,
    ensures
        (final(graph)@, out@) == g_video_effects(old(graph)@, clip@, v@, width, height, fps),
        final(graph)@.counter <= old(graph)@.counter + 18,
{
    let v = apply_video_shape(clip, v, graph, width, height, fps);
    apply_video_look(clip, v, graph)
}

/// The audio chain of a clip read from input `idx`.
#[verifier::rlimit(30)]
pub fn apply_audio_chain(clip: &IrClip, idx: usize, graph: &mut FilterGraph) -> (out: String)
    requires
        speed_ok(clip@),
        old(graph)@.counter + 70 <= usize::MAX,
    ensures
        (final(graph)@, out@) == g_audio_chain(old(graph)@, clip@, idx as nat),
        final(graph)@.counter <= old(graph)@.counter + 70,
{
    let mut a = if clip.has_audio {
        let input = stream_label(idx, ":a");
        graph.add_atrim(input.as_str(), clip.from_sec, clip.to_sec)
    } else {
        graph.add_silence(estimate_clip_duration(clip))
    };
    if let Some(vol) = clip.volume {
        a = graph.add_volume(a.as_str(), vol);
    }
    if let Some(spd) = clip.speed {
        a = graph.add_atempo(a.as_str(), spd);
    }
    if let Some(fi) = clip.fade_in_sec {
        a = graph.add_afade(a.as_str(), "in", Fixed { raw: 0 }, fi);
    }
    if let Some(fo) = clip.fade_out_sec {
        let start = estimate_clip_duration(clip).sub(fo).max(Fixed { raw: 0 });
        assert(start == at_least_zero(fsub(est(clip@), fo)));
        a = graph.add_afade(a.as_str(), "out", start, fo);
    }
    if clip.reverse == Some(true) {
        a = graph.add_areverse(a.as_str());
    }
    if clip.normalize == Some(true) {
        a = graph.add_loudnorm(a.as_str());
    }
    a
}

/// One clip: trim, video effects and audio chain.
pub fn process_single_clip(clip: &IrClip, input_map: &Vec<String>, graph: &mut FilterGraph, width: u32, height: u32, fps: u32) -> (r: (String, String))
    requires
        texts(input_map@).contains(clip@.asset_name),
        speed_ok(clip@),
        old(graph)@.counter + 100 <= usize::MAX,
    ensures
        (final(graph)@, (r.0@, r.1@)) == g_process_clip(old(graph)@, clip@, texts(input_map@), width, height, fps),
        final(graph)@.counter <= old(graph)@.counter + 90,
{
    let idx = input_idx(input_map, &clip.asset_name);
    let v_in = stream_label(idx, ":v");
    let v = graph.add_trim(v_in.as_str(), clip.from_sec, clip.to_sec);
    let v = apply_video_effects(clip, v, graph, width, height, fps);
    let a = apply_audio_chain(clip, idx, graph);
    (v, a)
}

/// A clip's segment: its chains, repeated and joined when it loops.
#[verifier::rlimit(30)]
pub fn clip_segment(clip: &IrClip, input_map: &Vec<String>, graph: &mut FilterGraph, width: u32, height: u32, fps: u32) -> (r: (String, String))
    requires
        texts(input_map@).contains(clip@.asset_name),
        speed_ok(clip@),
        old(graph)@.counter + 100 * item_weight(IrItemView::Clip(clip@)) <= usize::MAX,
    ensures
        (final(graph)@, (r.0@, r.1@)) == g_clip_segment(old(graph)@, clip@, texts(input_map@), width, height, fps),
        final(graph)@.counter + 8 <= old(graph)@.counter + 100 * item_weight(IrItemView::Clip(clip@)),
{
    let ghost g0 = old(graph)@;
    let ghost names = texts(input_map@);
    let (v_label, a_label) = process_single_clip(clip, input_map, graph, width, height, fps);
    let ghost g1 = graph@;
    match clip.loop_count {
        Some(count) => {
            if count > 1 {
                let mut v_labels: Vec<String> = vec![v_label];
                let mut a_labels: Vec<String> = vec![a_label];
                let mut k: u32 = 1;
                assert(texts(v_labels@) =~= seq![v_labels@[0]@] + Seq::<Seq<char>>::empty());
                assert(texts(a_labels@) =~= seq![a_labels@[0]@] + Seq::<Seq<char>>::empty());
                let ghost v0 = v_labels@[0]@;
                let ghost a0 = a_labels@[0]@;
                while k < count
                    invariant
                        1 <= k <= count,
                        names == texts(input_map@),
                        names.contains(clip@.asset_name),
                        speed_ok(clip@),
                        g0.counter + 100 * (count as nat + 1) <= usize::MAX,
                        g1.counter <= g0.counter + 90,
                        graph@.counter <= g1.counter + 90 * (k - 1),
                        g_repeat(g1, clip@, names, width, height, fps, (k - 1) as nat) == (
                            graph@,
                            texts(v_labels@).drop_first(),
                            texts(a_labels@).drop_first(),
                        ),
                        texts(v_labels@).len() == k,
                        texts(a_labels@).len() == k,
                        texts(v_labels@)[0] == v0,
                        texts(a_labels@)[0] == a0,
                    decreases count - k,
                {
                    assert(graph@.counter + 100 <= usize::MAX) by (nonlinear_arith)
                        requires
                            graph@.counter <= g1.counter + 90 * (k - 1),
                            g1.counter <= g0.counter + 90,
                            g0.counter + 100 * (count as nat + 1) <= usize::MAX,
                            k < count,
                    ;
                    let ghost vb = texts(v_labels@);
                    let ghost ab = texts(a_labels@);
                    let (vl, al) = process_single_clip(clip, input_map, graph, width, height, fps);
                    v_labels.push(vl);
                    a_labels.push(al);
                    assert(texts(v_labels@) =~= vb.push(vl@));
                    assert(texts(a_labels@) =~= ab.push(al@));
                    assert(texts(v_labels@).drop_first() =~= vb.drop_first().push(vl@));
                    assert(texts(a_labels@).drop_first() =~= ab.drop_first().push(al@));
                    k = k + 1;
                }
                assert(texts(v_labels@) =~= seq![v0] + texts(v_labels@).drop_first());
                assert(texts(a_labels@) =~= seq![a0] + texts(a_labels@).drop_first());
                assert(graph@.counter + 8 <= g0.counter + 100 * (count as nat + 1)) by (nonlinear_arith)
                    requires
                        graph@.counter <= g1.counter + 90 * (k - 1),
                        g1.counter <= g0.counter + 90,
                        k == count,
                ;
                let n = v_labels.len();
                graph.add_concat(v_labels.as_slice(), a_labels.as_slice(), n)
            } else {
                (v_label, a_label)
            }
        },
        None => (v_label, a_label),
    }
}

/// A prefix weighs no more than the whole.
proof fn lemma_items_weight_prefix(items: Seq<IrItemView>, i: int)
    requires
        0 <= i <= items.len(),
    ensures
        items_weight(items.take(i)) <= items_weight(items),
    decreases items.len() - i,
{
    if i < items.len() {
        assert(items.take(i + 1).drop_last() =~= items.take(i));
        lemma_items_weight_prefix(items, i + 1);
    } else {
        assert(items.take(i) =~= items);
    }
}

/// The state of a video track being turned into filters.
pub open spec fn state_of(g: GraphView, segs: Seq<(String, String)>, pending: Option<IrTransition>, cum: Fixed) -> ClipState {
    ClipState { g, segs: segs_view(segs), pending, cum }
}

/// What a video track item needs to be turned into filters: its input
/// among `names`, and a positive speed for a clip.
pub open spec fn item_ready(it: IrItemView, names: Seq<Seq<char>>) -> bool {
    match it {
        IrItemView::Clip(c) => names.contains(c.asset_name) && speed_ok(c),
        IrItemView::Freeze(f) => names.contains(f.asset_name),
        _ => true,
    }
}

/// A clip's segment added to the track: joined to the previous segment by
/// the waiting transition, if any, else appended.
#[verifier::rlimit(30)]
fn push_clip(
    clip: &IrClip,
    input_map: &Vec<String>,
    graph: &mut FilterGraph,
    segments: &mut Vec<(String, String)>,
    pending: &mut Option<IrTransition>,
    cum: &mut Fixed,
    width: u32,
    height: u32,
    fps: u32,
)
    requires
        texts(input_map@).contains(clip@.asset_name),
        speed_ok(clip@),
        old(graph)@.counter + 100 * item_weight(IrItemView::Clip(clip@)) <= usize::MAX,
    ensures
        state_of(final(graph)@, final(segments)@, *final(pending), *final(cum)) == step_clip(
            state_of(old(graph)@, old(segments)@, *old(pending), *old(cum)),
            clip@,
            texts(input_map@),
            width,
            height,
            fps,
        ),
        final(graph)@.counter <= old(graph)@.counter + 100 * item_weight(IrItemView::Clip(clip@)),
{
    let (v, a) = clip_segment(clip, input_map, graph, width, height, fps);
    match *pending {
        Some(t) => {
            *pending = None;
            if segments.len() > 0 {
                let ghost sv = segs_view(segments@);
                let prev = segments.pop().unwrap();
                assert(segs_view(segments@) =~= sv.drop_last());
                assert((prev.0@, prev.1@) == sv.last());
                let offset = cum.sub(t.duration_sec).max(Fixed { raw: 0 });
                let xv = graph.add_xfade(prev.0.as_str(), v.as_str(), t.kind.to_ffmpeg(), t.duration_sec, offset);
                let xa = graph.add_acrossfade(prev.1.as_str(), a.as_str(), t.duration_sec);
                let ghost nv = (xv@, xa@);
                segments.push((xv, xa));
                assert(segs_view(segments@) =~= sv.update(sv.len() - 1, nv));
                let e = estimate_clip_duration(clip);
                *cum = cum.add(e.sub(t.duration_sec));
            }
        },
        None => {
            let e = estimate_clip_duration(clip);
            *cum = cum.add(e);
            let ghost sv = segs_view(segments@);
            let ghost nv = (v@, a@);
            segments.push((v, a));
            assert(segs_view(segments@) =~= sv.push(nv));
        },
    }
}

/// One video track item turned into filters.
#[verifier::rlimit(30)]
fn push_item(
    it: &IrTrackItem,
    input_map: &Vec<String>,
    graph: &mut FilterGraph,
    segments: &mut Vec<(String, String)>,
    pending: &mut Option<IrTransition>,
    cum: &mut Fixed,
    width: u32,
    height: u32,
    fps: u32,
)
    requires
        item_ready(it@, texts(input_map@)),
        old(graph)@.counter + 100 * item_weight(it@) <= usize::MAX,
    ensures
        state_of(final(graph)@, final(segments)@, *final(pending), *final(cum)) == step_item(
            state_of(old(graph)@, old(segments)@, *old(pending), *old(cum)),
            it@,
            texts(input_map@),
            width,
            height,
            fps,
        ),
        final(graph)@.counter <= old(graph)@.counter + 100 * item_weight(it@),
{
    match it {
        IrTrackItem::Clip(clip) => {
            push_clip(clip, input_map, graph, segments, pending, cum, width, height, fps);
        },
        IrTrackItem::Transition(t) => {
            *pending = Some(*t);
        },
        IrTrackItem::Gap(gap) => {
            let v = graph.add_color_source(gap.duration_sec, width, height, fps, "black");
            let a = graph.add_silence(gap.duration_sec);
            *cum = cum.add(gap.duration_sec);
            let ghost sv = segs_view(segments@);
            let ghost nv = (v@, a@);
            segments.push((v, a));
            assert(segs_view(segments@) =~= sv.push(nv));
        },
        IrTrackItem::Freeze(f) => {
            let idx = input_idx(input_map, &f.asset_name);
            let v_in = stream_label(idx, ":v");
            let trimmed = graph.add_trim(v_in.as_str(), Some(f.at_sec), Some(f.at_sec.add(Fixed { raw: 40_000_000 })));
            let ws = u32_text(width);
            let hs = u32_text(height);
            let scaled = graph.add_scale(trimmed.as_str(), ws.as_str(), hs.as_str());
            let v = graph.add_tpad(scaled.as_str(), f.duration_sec);
            let a = graph.add_silence(f.duration_sec);
            *cum = cum.add(f.duration_sec);
            let ghost sv = segs_view(segments@);
            let ghost nv = (v@, a@);
            segments.push((v, a));
            assert(segs_view(segments@) =~= sv.push(nv));
        },
        _ => {},
    }
}

/// The filters of the video track items, with transitions, speed and
/// effects. Returns the final video and audio labels.
pub fn build_clip_filters(
    items: &[&IrTrackItem],
    input_map: &Vec<String>,
    graph: &mut FilterGraph,
    width: u32,
    height: u32,
    fps: u32,
) -> (r: (String, String))
    requires
        items_ready(item_refs_view(items@), texts(input_map@)),
        old(graph)@.counter + 100 * items_weight(item_refs_view(items@)) + 2 <= usize::MAX,
    ensures
        (final(graph)@, (r.0@, r.1@)) == g_clip_filters(old(graph)@, item_refs_view(items@), texts(input_map@), width, height, fps),
        final(graph)@.counter <= old(graph)@.counter + 100 * items_weight(item_refs_view(items@)) + 2,
{
    let ghost view = item_refs_view(items@);
    let ghost names = texts(input_map@);
    let ghost g0 = graph@;
    let ghost st0 = ClipState { g: g0, segs: Seq::empty(), pending: None, cum: Fixed { raw: 0 } };
    let mut segments: Vec<(String, String)> = Vec::new();
    let mut pending: Option<IrTransition> = None;
    let mut cum = Fixed { raw: 0 };
    let mut i: usize = 0;
    assert(view.take(0) =~= Seq::<IrItemView>::empty());
    assert(segs_view(segments@) =~= Seq::<(Seq<char>, Seq<char>)>::empty());
    while i < items.len()
        invariant
            i <= items@.len(),
            view == item_refs_view(items@),
            names == texts(input_map@),
            items_ready(view, names),
            g0.counter + 100 * items_weight(view) + 2 <= usize::MAX,
            graph@.counter <= g0.counter + 100 * items_weight(view.take(i as int)),
            fold_items(view.take(i as int), st0, names, width, height, fps) == state_of(graph@, segments@, pending, cum),
        decreases items@.len() - i,
    {
        proof {
            assert(view.take(i + 1).drop_last() =~= view.take(i as int));
            assert(view.take(i + 1).last() == view[i as int]);
            lemma_items_weight_prefix(view, i + 1);
        }
        let it = items[i];
        assert(view[i as int] == it@);
        assert(item_ready(view[i as int], names));
        push_item(it, input_map, graph, &mut segments, &mut pending, &mut cum, width, height, fps);
        i = i + 1;
    }
    assert(view.take(i as int) =~= view);
    reveal(g_clip_filters);
    if segments.len() == 1 {
        let seg = segments.pop().unwrap();
        seg
    } else if segments.len() == 0 {
        (crate::text::string_of("0:v"), crate::text::string_of("0:a"))
    } else {
        let mut v_labels: Vec<String> = Vec::new();
        let mut a_labels: Vec<String> = Vec::new();
        let mut k: usize = 0;
        while k < segments.len()
            invariant
                k <= segments@.len(),
                texts(v_labels@) == seg_videos(segs_view(segments@)).take(k as int),
                texts(a_labels@) == seg_audios(segs_view(segments@)).take(k as int),
            decreases segments@.len() - k,
        {
            let ghost vb = texts(v_labels@);
            let ghost ab = texts(a_labels@);
            v_labels.push(segments[k].0.clone());
            a_labels.push(segments[k].1.clone());
            assert(texts(v_labels@) =~= vb.push(segments@[k as int].0@));
            assert(texts(a_labels@) =~= ab.push(segments@[k as int].1@));
            assert(seg_videos(segs_view(segments@))[k as int] == segments@[k as int].0@);
            assert(seg_audios(segs_view(segments@))[k as int] == segments@[k as int].1@);
            assert(seg_videos(segs_view(segments@)).take(k + 1) =~= seg_videos(segs_view(segments@)).take(k as int).push(
                segments@[k as int].0@,
            ));
            assert(seg_audios(segs_view(segments@)).take(k + 1) =~= seg_audios(segs_view(segments@)).take(k as int).push(
                segments@[k as int].1@,
            ));
            k = k + 1;
        }
        assert(seg_videos(segs_view(segments@)).take(k as int) =~= seg_videos(segs_view(segments@)));
        assert(seg_audios(segs_view(segments@)).take(k as int) =~= seg_audios(segs_view(segments@)));
        let n = segments.len();
        graph.add_concat(v_labels.as_slice(), a_labels.as_slice(), n)
    }
}

} // verus!
