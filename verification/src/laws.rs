//! Properties of the library as a whole: what a validated program
//! guarantees of its clips and references, and what holds of every filter
//! graph and command built from one.
use vstd::prelude::*;
use crate::ast::{BlockView, ExprView, ItemView, LetView, ProgramView, TrackView};
use crate::error::ErrView;
use crate::fixed::Fixed;
use crate::ir::{default_clip, IrAssetView, IrClipView, IrItemView, IrProgramView, IrTrackView};
use crate::clips_spec::speed_ok;
use crate::ffmpeg_spec::{
    cat_items, cat_tracks, categorize, codegen_ready, generate_all_spec, generate_spec, label_budget, no_cats,
    project_for, reg, reg_all, reg_video, register, speeds_ok, Cats,
};
use crate::ir::{IrImageOverlayView, IrTrackKind};
use crate::ir_kinds::{transition_named, xfade_name, TransitionKind};
use crate::filter_graph::label;
use crate::text::{all_digits, digits_value, is_digit, nat_text};
use crate::semantic_spec::{
    all_ok, analyze_spec, clip_apply, clip_apply_effect, clip_apply_flag, clip_apply_ranged, clip_apply_text,
    clip_apply_timing, clip_fold, clip_post, clip_step, find_asset, lookup_var, fold_attrs, item_fn, item_spec, range_check,
    resolve_assets_spec, resolve_clip_spec, resolve_expr, image_apply, image_init, image_step, resolve_image_spec, timeline_spec, track_fn, track_spec,
};

verus! {

/// Each element that `all_ok` maps succeeds, in order, and there are as
/// many results as elements.
pub proof fn lemma_all_ok_elems<A, B>(xs: Seq<A>, f: spec_fn(A) -> Result<B, ErrView>)
    requires
        all_ok(xs, f) is Ok,
    ensures
        all_ok(xs, f)->Ok_0.len() == xs.len(),
        forall|i: int| 0 <= i < xs.len() ==> #[trigger] f(xs[i]) == Ok::<B, ErrView>(all_ok(xs, f)->Ok_0[i]),
    decreases xs.len(),
{
    if xs.len() > 0 {
        let rest = xs.drop_last();
        lemma_all_ok_elems(rest, f);
        assert forall|i: int| 0 <= i < xs.len() implies #[trigger] f(xs[i]) == Ok::<B, ErrView>(all_ok(xs, f)->Ok_0[i]) by {
            if i < xs.len() - 1 {
                assert(rest[i] == xs[i]);
            }
        }
    }
}

/// The ranges that the effect settings of a validated clip lie in.
pub open spec fn effects_in_range(c: IrClipView) -> bool {
    &&& c.zoom matches Some(x) ==> 1_000_000_000 <= x.raw <= 10_000_000_000
    &&& c.blur matches Some(x) ==> 0 <= x.raw <= 100_000_000_000
    &&& c.opacity matches Some(x) ==> 0 <= x.raw <= 1_000_000_000
    &&& c.vignette matches Some(x) ==> 0 <= x.raw <= 1_000_000_000
    &&& c.grain matches Some(x) ==> 0 <= x.raw <= 1_000_000_000
    &&& c.sharpen matches Some(x) ==> x.raw > 0
    &&& c.pan_x matches Some(x) ==> -1_000_000_000 <= x.raw <= 1_000_000_000
    &&& c.pan_y matches Some(x) ==> -1_000_000_000 <= x.raw <= 1_000_000_000
    &&& c.loop_count matches Some(n) ==> n >= 1
}

/// The ranges that every setting of a validated clip lies in: its effects,
/// `from` before `to`, volume from 0 to 1, speed above 0 and at most 100,
/// brightness from -1 to 1, contrast and saturation from 0 to 3.
pub open spec fn clip_in_range(c: IrClipView) -> bool {
    &&& effects_in_range(c)
    &&& (c.from_sec is Some && c.to_sec is Some) ==> c.from_sec->0.raw < c.to_sec->0.raw
    &&& c.volume matches Some(x) ==> 0 <= x.raw <= 1_000_000_000
    &&& c.speed matches Some(x) ==> 0 < x.raw <= 100_000_000_000
    &&& c.brightness matches Some(x) ==> -1_000_000_000 <= x.raw <= 1_000_000_000
    &&& c.contrast matches Some(x) ==> 0 <= x.raw <= 3_000_000_000
    &&& c.saturation matches Some(x) ==> 0 <= x.raw <= 3_000_000_000
}

/// The effects and the asset of a clip stay as they were.
pub open spec fn same_effects(a: IrClipView, b: IrClipView) -> bool {
    &&& a.zoom == b.zoom && a.blur == b.blur && a.opacity == b.opacity && a.vignette == b.vignette
    &&& a.grain == b.grain && a.sharpen == b.sharpen && a.pan_x == b.pan_x && a.pan_y == b.pan_y
    &&& a.loop_count == b.loop_count
}

/// The asset of a clip stays as it was.
pub open spec fn same_asset(a: IrClipView, b: IrClipView) -> bool {
    a.asset_name == b.asset_name && a.asset_path == b.asset_path && a.asset_kind == b.asset_kind
}

proof fn lemma_timing_keeps(st: IrClipView, key: Seq<char>, v: ExprView, fps: u32)
    requires
        clip_apply_timing(st, key, v, fps) matches Some(Ok(_)),
    ensures
        same_effects(st, clip_apply_timing(st, key, v, fps)->0->Ok_0),
        same_asset(st, clip_apply_timing(st, key, v, fps)->0->Ok_0),
{
}

#[verifier::rlimit(30)]
proof fn lemma_ranged_keeps(st: IrClipView, key: Seq<char>, v: ExprView, name: Seq<char>)
    requires
        effects_in_range(st),
        clip_apply_ranged(st, key, v, name) matches Some(Ok(_)),
    ensures
        effects_in_range(clip_apply_ranged(st, key, v, name)->0->Ok_0),
        same_asset(st, clip_apply_ranged(st, key, v, name)->0->Ok_0),
{
}

proof fn lemma_text_keeps(st: IrClipView, key: Seq<char>, v: ExprView, name: Seq<char>)
    requires
        clip_apply_text(st, key, v, name) matches Some(Ok(_)),
    ensures
        same_effects(st, clip_apply_text(st, key, v, name)->0->Ok_0),
        same_asset(st, clip_apply_text(st, key, v, name)->0->Ok_0),
{
}

proof fn lemma_flag_keeps(st: IrClipView, key: Seq<char>, v: ExprView, name: Seq<char>)
    requires
        effects_in_range(st),
        clip_apply_flag(st, key, v, name) is Ok,
    ensures
        effects_in_range(clip_apply_flag(st, key, v, name)->Ok_0),
        same_asset(st, clip_apply_flag(st, key, v, name)->Ok_0),
{
}

/// One attribute keeps a clip's effects in range and its asset unchanged.
#[verifier::rlimit(30)]
proof fn lemma_clip_apply_keeps(st: IrClipView, key: Seq<char>, v: ExprView, fps: u32, name: Seq<char>)
    requires
        effects_in_range(st),
        clip_apply(st, key, v, fps, name) is Ok,
    ensures
        effects_in_range(clip_apply(st, key, v, fps, name)->Ok_0),
        same_asset(st, clip_apply(st, key, v, fps, name)->Ok_0),
{
    reveal(clip_apply);
    match clip_apply_timing(st, key, v, fps) {
        Some(_) => lemma_timing_keeps(st, key, v, fps),
        None => match clip_apply_ranged(st, key, v, name) {
            Some(_) => lemma_ranged_keeps(st, key, v, name),
            None => match clip_apply_text(st, key, v, name) {
                Some(_) => lemma_text_keeps(st, key, v, name),
                None => lemma_flag_keeps(st, key, v, name),
            },
        },
    }
}

/// A clip's attributes keep its effects in range and its asset unchanged.
proof fn lemma_clip_fold_keeps(attrs: Seq<(Seq<char>, ExprView)>, init: IrClipView, vars: Seq<LetView>, fps: u32, name: Seq<char>)
    requires
        effects_in_range(init),
        clip_fold(attrs, init, vars, fps, name) is Ok,
    ensures
        effects_in_range(clip_fold(attrs, init, vars, fps, name)->Ok_0),
        same_asset(init, clip_fold(attrs, init, vars, fps, name)->Ok_0),
    decreases attrs.len(),
{
    if attrs.len() > 0 {
        let step = clip_step(vars, fps, name);
        let rest = attrs.drop_last();
        assert(fold_attrs(rest, init, step) is Ok);
        lemma_clip_fold_keeps(rest, init, vars, fps, name);
        let st = fold_attrs(rest, init, step)->Ok_0;
        let a = attrs.last();
        match resolve_expr(a.1, vars) {
            Ok(v) => lemma_clip_apply_keeps(st, a.0, v, fps, name),
            Err(_) => {},
        }
    }
}

/// The first asset named `name` is one of the assets.
proof fn lemma_find_asset_member(assets: Seq<IrAssetView>, name: Seq<char>)
    requires
        find_asset(assets, name) is Some,
    ensures
        assets.contains(find_asset(assets, name)->0),
        find_asset(assets, name)->0.name == name,
    decreases assets.len(),
{
    if assets[0].name != name {
        lemma_find_asset_member(assets.drop_first(), name);
        let a = find_asset(assets, name)->0;
        let k = choose|k: int| 0 <= k < assets.drop_first().len() && assets.drop_first()[k] == a;
        assert(assets[k + 1] == a);
    } else {
        assert(assets[0] == find_asset(assets, name)->0);
    }
}

/// A clip that resolves has every setting within its documented range,
/// and reads a declared asset: one of `assets`, of the name it refers to,
/// at that asset's path.
pub proof fn lemma_resolved_clip(decl: BlockView, assets: Seq<IrAssetView>, vars: Seq<LetView>, fps: u32)
    requires
        resolve_clip_spec(decl, assets, vars, fps) is Ok,
    ensures
        clip_in_range(resolve_clip_spec(decl, assets, vars, fps)->Ok_0),
        exists|a: IrAssetView| #[trigger] assets.contains(a) && a.name == decl.0
            && a.name == resolve_clip_spec(decl, assets, vars, fps)->Ok_0.asset_name
            && a.path == resolve_clip_spec(decl, assets, vars, fps)->Ok_0.asset_path,
{
    reveal(clip_post);
    let a = find_asset(assets, decl.0)->0;
    lemma_find_asset_member(assets, decl.0);
    let init = default_clip(a.name, a.path, a.kind);
    lemma_clip_fold_keeps(decl.1, init, vars, fps, decl.0);
    let c = clip_fold(decl.1, init, vars, fps, decl.0)->Ok_0;
    assert(resolve_clip_spec(decl, assets, vars, fps) == Ok::<IrClipView, ErrView>(c));
    assert(assets.contains(a));
}

/// Every clip of a validated program has its settings within their
/// documented ranges and reads one of the program's assets, by name and
/// path.
pub open spec fn clips_valid(ir: IrProgramView) -> bool {
    forall|t: int, i: int|
        0 <= t < ir.timeline.1.len() && 0 <= i < ir.timeline.1[t].1.len() ==> (#[trigger] ir.timeline.1[t].1[i] matches IrItemView::Clip(
            c,
        ) ==> clip_in_range(c) && exists|a: IrAssetView| #[trigger] ir.assets.contains(a) && a.name == c.asset_name && a.path
            == c.asset_path)
}

/// The validated program keeps the shape of its first timeline: as many
/// tracks, of the same kinds, each with as many items, each of the same
/// sort.
pub open spec fn same_shape(ir: IrProgramView, tl: Seq<TrackView>) -> bool {
    &&& ir.timeline.1.len() == tl.len()
    &&& forall|t: int| 0 <= t < tl.len() ==> {
        &&& #[trigger] ir.timeline.1[t].0 == crate::semantic_spec::ir_track_kind(tl[t].0)
        &&& ir.timeline.1[t].1.len() == tl[t].1.len()
        &&& forall|i: int| 0 <= i < tl[t].1.len() ==> same_sort(#[trigger] tl[t].1[i], ir.timeline.1[t].1[i])
    }
}

/// A declared item and its resolved form are of the same sort.
pub open spec fn same_sort(d: ItemView, r: IrItemView) -> bool {
    match d {
        ItemView::Clip(_) => r is Clip,
        ItemView::TextOverlay(_) => r is TextOverlay,
        ItemView::Transition(_) => r is Transition,
        ItemView::ImageOverlay(_) => r is ImageOverlay,
        ItemView::Gap(_) => r is Gap,
        ItemView::Freeze(_) => r is Freeze,
        ItemView::Pip(_) => r is Pip,
        ItemView::Subtitle(_) => r is Subtitle,
    }
}

/// A resolved track item keeps its sort, and a resolved clip is valid.
proof fn lemma_resolved_item(it: ItemView, base: Seq<char>, assets: Seq<IrAssetView>, vars: Seq<LetView>, fps: u32)
    requires
        item_spec(it, base, assets, vars, fps) is Ok,
    ensures
        same_sort(it, item_spec(it, base, assets, vars, fps)->Ok_0),
        item_spec(it, base, assets, vars, fps)->Ok_0 matches IrItemView::Clip(c) ==> clip_in_range(c) && exists|a: IrAssetView|
            #[trigger] assets.contains(a) && a.name == c.asset_name && a.path == c.asset_path,
{
    match it {
        ItemView::Clip(b) => lemma_resolved_clip(b, assets, vars, fps),
        _ => {},
    }
}

/// What semantic analysis promises of the program it accepts: the first
/// timeline keeps its shape, and every clip is valid and reads a declared
/// asset.
#[verifier::rlimit(30)]
pub proof fn lemma_analyzed_program(base: Seq<char>, p: ProgramView)
    requires
        analyze_spec(base, p) is Ok,
    ensures
        clips_valid(analyze_spec(base, p)->Ok_0),
        same_shape(analyze_spec(base, p)->Ok_0, p.timelines[0].1),
{
    let ir = analyze_spec(base, p)->Ok_0;
    let vars = crate::semantic_spec::resolve_vars_spec(p.variables)->Ok_0;
    let proj = crate::semantic_spec::resolve_project_spec(p.project->0, vars)->Ok_0;
    let assets = resolve_assets_spec(base, p.assets)->Ok_0;
    let tl = p.timelines[0];
    let tf = track_fn(base, assets, vars, proj.fps);
    let itf = item_fn(base, assets, vars, proj.fps);
    assert(timeline_spec(tl, base, assets, vars, proj.fps) is Ok);
    assert(all_ok(tl.1, tf) is Ok);
    lemma_all_ok_elems(tl.1, tf);
    let tracks = all_ok(tl.1, tf)->Ok_0;
    assert(ir.timeline.1 == tracks);
    assert(ir.assets == assets);
    assert forall|t: int| 0 <= t < tl.1.len() implies {
        &&& #[trigger] ir.timeline.1[t].0 == crate::semantic_spec::ir_track_kind(tl.1[t].0)
        &&& ir.timeline.1[t].1.len() == tl.1[t].1.len()
        &&& forall|i: int| 0 <= i < tl.1[t].1.len() ==> same_sort(#[trigger] tl.1[t].1[i], ir.timeline.1[t].1[i])
        &&& forall|i: int| 0 <= i < ir.timeline.1[t].1.len() ==> (#[trigger] ir.timeline.1[t].1[i] matches IrItemView::Clip(
            c,
        ) ==> clip_in_range(c) && exists|a: IrAssetView| #[trigger] ir.assets.contains(a) && a.name == c.asset_name && a.path
            == c.asset_path)
    } by {
        assert(tf(tl.1[t]) == Ok::<IrTrackView, ErrView>(tracks[t]));
        assert(track_spec(tl.1[t], base, assets, vars, proj.fps) is Ok);
        assert(all_ok(tl.1[t].1, itf) is Ok);
        lemma_all_ok_elems(tl.1[t].1, itf);
        let items = all_ok(tl.1[t].1, itf)->Ok_0;
        assert(tracks[t] == (crate::semantic_spec::ir_track_kind(tl.1[t].0), items));
        assert forall|i: int| 0 <= i < tl.1[t].1.len() implies same_sort(#[trigger] tl.1[t].1[i], ir.timeline.1[t].1[i]) by {
            assert(itf(tl.1[t].1[i]) == Ok::<IrItemView, ErrView>(items[i]));
            lemma_resolved_item(tl.1[t].1[i], base, assets, vars, proj.fps);
        }
        assert forall|i: int| 0 <= i < ir.timeline.1[t].1.len() implies (#[trigger] ir.timeline.1[t].1[i] matches IrItemView::Clip(
            c,
        ) ==> clip_in_range(c) && exists|a: IrAssetView| #[trigger] ir.assets.contains(a) && a.name == c.asset_name && a.path
            == c.asset_path) by {
            assert(itf(tl.1[t].1[i]) == Ok::<IrItemView, ErrView>(items[i]));
            lemma_resolved_item(tl.1[t].1[i], base, assets, vars, proj.fps);
        }
    }
    assert forall|t: int, i: int| 0 <= t < ir.timeline.1.len() && 0 <= i < ir.timeline.1[t].1.len() implies (
    #[trigger] ir.timeline.1[t].1[i] matches IrItemView::Clip(c) ==> clip_in_range(c) && exists|a: IrAssetView|
        #[trigger] ir.assets.contains(a) && a.name == c.asset_name && a.path == c.asset_path) by {
        assert(ir.timeline.1[t].0 == crate::semantic_spec::ir_track_kind(tl.1[t].0));
    }
}

/// The commands for all outputs: one, to the default path with the
/// project's own settings, when the program declares no output; else one
/// per declared output, in order, to its path with its settings.
pub proof fn lemma_generate_all_outputs(ir: IrProgramView, default_output: Seq<char>)
    ensures
        ir.outputs.len() == 0 ==> generate_all_spec(ir, default_output) == seq![generate_spec(ir, ir.project, default_output)],
        ir.outputs.len() > 0 ==> generate_all_spec(ir, default_output).len() == ir.outputs.len(),
        forall|i: int| 0 <= i < ir.outputs.len() ==> {
            &&& #[trigger] generate_all_spec(ir, default_output)[i] == generate_spec(ir, project_for(ir.project, ir.outputs[i]), ir.outputs[i].path)
            &&& generate_all_spec(ir, default_output)[i].output_path == ir.outputs[i].path
        },
{
}

/// Registering an asset keeps the names free of repeats, with a path for
/// each name.
proof fn lemma_reg_distinct(acc: (Seq<Seq<char>>, Seq<Seq<char>>), name: Seq<char>, path: Seq<char>)
    requires
        acc.0.no_duplicates(),
        acc.0.len() == acc.1.len(),
    ensures
        reg(acc, name, path).0.no_duplicates(),
        reg(acc, name, path).0.len() == reg(acc, name, path).1.len(),
{
    if !acc.0.contains(name) {
        let r = acc.0.push(name);
        assert forall|i: int, j: int| 0 <= i < r.len() && 0 <= j < r.len() && i != j implies r[i] != r[j] by {
            if i == r.len() - 1 {
                assert(acc.0[j] == r[j]);
            } else if j == r.len() - 1 {
                assert(acc.0[i] == r[i]);
            }
        }
    }
}

proof fn lemma_reg_all_distinct(acc: (Seq<Seq<char>>, Seq<Seq<char>>), assets: Seq<(Seq<char>, Seq<char>)>)
    requires
        acc.0.no_duplicates(),
        acc.0.len() == acc.1.len(),
    ensures
        reg_all(acc, assets).0.no_duplicates(),
        reg_all(acc, assets).0.len() == reg_all(acc, assets).1.len(),
    decreases assets.len(),
{
    if assets.len() > 0 {
        lemma_reg_all_distinct(acc, assets.drop_last());
        lemma_reg_distinct(reg_all(acc, assets.drop_last()), assets.last().0, assets.last().1);
    }
}

proof fn lemma_reg_video_distinct(acc: (Seq<Seq<char>>, Seq<Seq<char>>), items: Seq<IrItemView>)
    requires
        acc.0.no_duplicates(),
        acc.0.len() == acc.1.len(),
    ensures
        reg_video(acc, items).0.no_duplicates(),
        reg_video(acc, items).0.len() == reg_video(acc, items).1.len(),
    decreases items.len(),
{
    if items.len() > 0 {
        lemma_reg_video_distinct(acc, items.drop_last());
        let r = reg_video(acc, items.drop_last());
        match items.last() {
            IrItemView::Clip(c) => lemma_reg_distinct(r, c.asset_name, c.asset_path),
            IrItemView::Freeze(f) => lemma_reg_distinct(r, f.asset_name, f.asset_path),
            _ => {},
        }
    }
}

/// Each asset is one input of the command: the registered names have no
/// repeats, and each has its path.
pub proof fn lemma_inputs_distinct(c: Cats)
    ensures
        register(c).0.no_duplicates(),
        register(c).0.len() == register(c).1.len(),
{
    reveal(register);
    let e = (Seq::<Seq<char>>::empty(), Seq::<Seq<char>>::empty());
    lemma_reg_video_distinct(e, c.video);
    let r1 = reg_video(e, c.video);
    let a = c.audio.map_values(|x: IrClipView| (x.asset_name, x.asset_path));
    lemma_reg_all_distinct(r1, a);
    let r2 = reg_all(r1, a);
    let b = c.images.map_values(|x: crate::ir::IrImageOverlayView| (x.asset_name, x.asset_path));
    lemma_reg_all_distinct(r2, b);
    let r3 = reg_all(r2, b);
    let p = c.pips.map_values(|x: crate::ir::IrPipView| (x.asset_name, x.asset_path));
    lemma_reg_all_distinct(r3, p);
}

/// The decimal text of a number is a nonempty run of digits.
proof fn lemma_nat_text_digits(n: nat)
    ensures
        nat_text(n).len() > 0,
        all_digits(nat_text(n)),
    decreases n,
{
    if n >= 10 {
        lemma_nat_text_digits(n / 10);
        let t = nat_text(n / 10);
        let d = crate::text::digit_char((n % 10) as int);
        assert forall|i: int| 0 <= i < t.push(d).len() implies #[trigger] is_digit(t.push(d)[i]) by {
            if i < t.len() {
                assert(t.push(d)[i] == t[i]);
            }
        }
    }
}

/// The decimal text of a number reads back as that number.
proof fn lemma_nat_text_value(n: nat)
    ensures
        digits_value(nat_text(n)) == n,
    decreases n,
{
    if n >= 10 {
        lemma_nat_text_value(n / 10);
        let t = nat_text(n / 10);
        let d = crate::text::digit_char((n % 10) as int);
        assert(crate::text::digit_value(d) == n % 10);
        assert(nat_text(n) == t.push(d));
        assert(t.push(d).drop_last() =~= t);
        assert(t.push(d).last() == d);
        assert(digits_value(t.push(d)) == digits_value(t) * 10 + crate::text::digit_value(d));
        assert((n / 10) * 10 + n % 10 == n) by (nonlinear_arith);
    } else {
        let t = nat_text(n);
        let d = crate::text::digit_char(n as int);
        assert(crate::text::digit_value(d) == n);
        assert(t == seq![d]);
        assert(t.drop_last() =~= Seq::<char>::empty());
        assert(t.last() == d);
        assert(digits_value(t) == digits_value(t.drop_last()) * 10 + crate::text::digit_value(d));
    }
}

/// Text without decimal digits.
pub open spec fn no_digits(p: Seq<char>) -> bool {
    forall|i: int| 0 <= i < p.len() ==> !is_digit(#[trigger] p[i])
}

/// Labels under one prefix never collide, whatever the prefix: the labels
/// that one graph hands out under the same prefix, its counter growing with
/// each, are all different.
pub proof fn lemma_same_prefix_labels_distinct(p: Seq<char>, n: nat, m: nat)
    requires
        n != m,
    ensures
        label(p, n) != label(p, m),
{
    if label(p, n) == label(p, m) {
        assert(nat_text(n) =~= label(p, n).skip(p.len() as int));
        assert(nat_text(m) =~= label(p, m).skip(p.len() as int));
        lemma_nat_text_value(n);
        lemma_nat_text_value(m);
    }
}

/// Labels never collide: two labels of digit-free prefixes are equal only
/// for the same prefix and the same number, so the labels that one graph
/// hands out, its counter growing with each, are all different.
pub proof fn lemma_labels_distinct(p: Seq<char>, n: nat, q: Seq<char>, m: nat)
    requires
        no_digits(p),
        no_digits(q),
        p != q || n != m,
    ensures
        label(p, n) != label(q, m),
{
    lemma_nat_text_digits(n);
    lemma_nat_text_digits(m);
    let l1 = label(p, n);
    let l2 = label(q, m);
    if l1 == l2 {
        if p.len() < q.len() {
            assert(l1[p.len() as int] == nat_text(n)[0]);
            assert(is_digit(nat_text(n)[0]));
            assert(l2[p.len() as int] == q[p.len() as int]);
            assert(false);
        } else if q.len() < p.len() {
            assert(l2[q.len() as int] == nat_text(m)[0]);
            assert(is_digit(nat_text(m)[0]));
            assert(l1[q.len() as int] == p[q.len() as int]);
            assert(false);
        } else {
            assert(p =~= l1.take(p.len() as int));
            assert(q =~= l2.take(q.len() as int));
            assert(nat_text(n) =~= l1.skip(p.len() as int));
            assert(nat_text(m) =~= l2.skip(q.len() as int));
            lemma_nat_text_value(n);
            lemma_nat_text_value(m);
        }
    }
}

/// A clip item plays at a positive speed where one is set.
pub open spec fn item_speed_ok(it: IrItemView) -> bool {
    it matches IrItemView::Clip(c) ==> speed_ok(c)
}

proof fn lemma_cat_items_speeds(c: Cats, kind: IrTrackKind, items: Seq<IrItemView>)
    requires
        speeds_ok(c.video),
        forall|i: int| 0 <= i < items.len() ==> item_speed_ok(#[trigger] items[i]),
    ensures
        speeds_ok(cat_items(c, kind, items).video),
    decreases items.len(),
{
    if items.len() > 0 {
        lemma_cat_items_speeds(c, kind, items.drop_last());
        let r = cat_items(c, kind, items.drop_last());
        assert(item_speed_ok(items[items.len() - 1]));
        let v = cat_items(c, kind, items).video;
        assert forall|i: int| 0 <= i < v.len() implies (#[trigger] v[i] matches IrItemView::Clip(x) ==> speed_ok(x)) by {
            if i < r.video.len() {
                assert(v[i] == r.video[i]);
            }
        }
    }
}

proof fn lemma_cat_tracks_speeds(c: Cats, tracks: Seq<IrTrackView>)
    requires
        speeds_ok(c.video),
        forall|t: int, i: int| 0 <= t < tracks.len() && 0 <= i < tracks[t].1.len() ==> item_speed_ok(#[trigger] tracks[t].1[i]),
    ensures
        speeds_ok(cat_tracks(c, tracks).video),
    decreases tracks.len(),
{
    if tracks.len() > 0 {
        let rest = tracks.drop_last();
        assert forall|t: int, i: int| 0 <= t < rest.len() && 0 <= i < rest[t].1.len() implies item_speed_ok(
            #[trigger] rest[t].1[i],
        ) by {
            assert(rest[t] == tracks[t]);
        }
        lemma_cat_tracks_speeds(c, rest);
        let last = tracks.last();
        assert forall|i: int| 0 <= i < last.1.len() implies item_speed_ok(#[trigger] last.1[i]) by {
            assert(tracks[tracks.len() - 1].1[i] == last.1[i]);
        }
        lemma_cat_items_speeds(cat_tracks(c, rest), last.0, last.1);
    }
}

/// A program that analysis accepts has every clip of its video tracks at a
/// positive speed where one is set, so its command can be built as long
/// as the labels of its filter graph can be counted.
pub proof fn lemma_analyzed_renders(base: Seq<char>, p: ProgramView)
    requires
        analyze_spec(base, p) is Ok,
        label_budget(categorize(analyze_spec(base, p)->Ok_0.timeline.1)) <= usize::MAX,
    ensures
        codegen_ready(analyze_spec(base, p)->Ok_0),
{
    let ir = analyze_spec(base, p)->Ok_0;
    lemma_analyzed_program(base, p);
    let tracks = ir.timeline.1;
    assert forall|t: int, i: int| 0 <= t < tracks.len() && 0 <= i < tracks[t].1.len() implies item_speed_ok(
        #[trigger] tracks[t].1[i],
    ) by {
        assert(ir.timeline.1[t].1[i] == tracks[t].1[i]);
    }
    reveal(categorize);
    lemma_cat_tracks_speeds(no_cats(), tracks);
}

/// An attribute that every step treats as another can be replaced by it
/// without changing the fold.
pub proof fn lemma_fold_replace<S>(
    attrs: Seq<(Seq<char>, ExprView)>,
    i: int,
    b: (Seq<char>, ExprView),
    init: S,
    step: spec_fn(S, (Seq<char>, ExprView)) -> Result<S, ErrView>,
)
    requires
        0 <= i < attrs.len(),
        forall|st: S| #[trigger] step(st, attrs[i]) == step(st, b),
    ensures
        fold_attrs(attrs, init, step) == fold_attrs(attrs.update(i, b), init, step),
    decreases attrs.len(),
{
    let u = attrs.update(i, b);
    if i == attrs.len() - 1 {
        assert(u.drop_last() =~= attrs.drop_last());
        match fold_attrs(attrs.drop_last(), init, step) {
            Ok(st) => {
                assert(step(st, attrs[i]) == step(st, b));
            },
            Err(_) => {},
        }
    } else {
        assert(u.drop_last() =~= attrs.drop_last().update(i, b));
        assert(attrs.drop_last()[i] == attrs[i]);
        lemma_fold_replace(attrs.drop_last(), i, b, init, step);
    }
}

/// Variables stand for their values: a clip whose attribute names a
/// variable bound by `let` resolves as if the variable's value were written
/// in its place (for a value that is not itself a name).
pub proof fn lemma_variable_inlining(
    decl: BlockView,
    assets: Seq<IrAssetView>,
    vars: Seq<LetView>,
    fps: u32,
    i: int,
    name: Seq<char>,
    v: ExprView,
)
    requires
        0 <= i < decl.1.len(),
        decl.1[i].1 == ExprView::Ident(name),
        lookup_var(vars, name) == Some(v),
        !(v is Ident),
    ensures
        resolve_clip_spec(decl, assets, vars, fps) == resolve_clip_spec(
            (decl.0, decl.1.update(i, (decl.1[i].0, v))),
            assets,
            vars,
            fps,
        ),
{
    let step = clip_step(vars, fps, decl.0);
    let b = (decl.1[i].0, v);
    assert forall|st: IrClipView| #[trigger] step(st, decl.1[i]) == step(st, b) by {
        assert(resolve_expr(decl.1[i].1, vars) == Ok::<ExprView, ErrView>(v));
        assert(resolve_expr(v, vars) == Ok::<ExprView, ErrView>(v));
    }
    match find_asset(assets, decl.0) {
        Some(a) => {
            lemma_fold_replace(decl.1, i, b, default_clip(a.name, a.path, a.kind), step);
        },
        None => {},
    }
}

/// Each transition is named back by its FFmpeg name: reading the name that
/// `to_ffmpeg` gives with `from_str` yields the same transition.
pub proof fn lemma_transition_names_round_trip(k: TransitionKind)
    ensures
        transition_named(xfade_name(k)) == Some(k),
{
    // The names are told apart by their lengths, and names of one length
    // by the characters checked after them.
    reveal_strlit("fade");
    assert("fade"@.len() == 4);
    reveal_strlit("fadeblack");
    assert("fadeblack"@.len() == 9);
    reveal_strlit("fade-black");
    assert("fade-black"@.len() == 10);
    reveal_strlit("fadewhite");
    assert("fadewhite"@.len() == 9);
    reveal_strlit("fade-white");
    assert("fade-white"@.len() == 10);
    reveal_strlit("dissolve");
    assert("dissolve"@.len() == 8);
    reveal_strlit("wipe-left");
    assert("wipe-left"@.len() == 9);
    reveal_strlit("wipeleft");
    assert("wipeleft"@.len() == 8);
    reveal_strlit("wipe-right");
    assert("wipe-right"@.len() == 10);
    reveal_strlit("wiperight");
    assert("wiperight"@.len() == 9);
    reveal_strlit("wipe-up");
    assert("wipe-up"@.len() == 7);
    reveal_strlit("wipeup");
    assert("wipeup"@.len() == 6);
    reveal_strlit("wipe-down");
    assert("wipe-down"@.len() == 9);
    reveal_strlit("wipedown");
    assert("wipedown"@.len() == 8);
    reveal_strlit("slide-left");
    assert("slide-left"@.len() == 10);
    reveal_strlit("slideleft");
    assert("slideleft"@.len() == 9);
    reveal_strlit("slide-right");
    assert("slide-right"@.len() == 11);
    reveal_strlit("slideright");
    assert("slideright"@.len() == 10);
    reveal_strlit("slide-up");
    assert("slide-up"@.len() == 8);
    reveal_strlit("slideup");
    assert("slideup"@.len() == 7);
    reveal_strlit("slide-down");
    assert("slide-down"@.len() == 10);
    reveal_strlit("slidedown");
    assert("slidedown"@.len() == 9);
    reveal_strlit("zoomin");
    assert("zoomin"@.len() == 6);
    reveal_strlit("zoom-in");
    assert("zoom-in"@.len() == 7);
    reveal_strlit("smooth-left");
    assert("smooth-left"@.len() == 11);
    reveal_strlit("smoothleft");
    assert("smoothleft"@.len() == 10);
    reveal_strlit("smooth-right");
    assert("smooth-right"@.len() == 12);
    reveal_strlit("smoothright");
    assert("smoothright"@.len() == 11);
    reveal_strlit("smooth-up");
    assert("smooth-up"@.len() == 9);
    reveal_strlit("smoothup");
    assert("smoothup"@.len() == 8);
    reveal_strlit("smooth-down");
    assert("smooth-down"@.len() == 11);
    reveal_strlit("smoothdown");
    assert("smoothdown"@.len() == 10);
    reveal_strlit("squeeze-h");
    assert("squeeze-h"@.len() == 9);
    reveal_strlit("squeezeh");
    assert("squeezeh"@.len() == 8);
    reveal_strlit("squeeze-v");
    assert("squeeze-v"@.len() == 9);
    reveal_strlit("squeezev");
    assert("squeezev"@.len() == 8);
    reveal_strlit("circlecrop");
    assert("circlecrop"@.len() == 10);
    reveal_strlit("circle-crop");
    assert("circle-crop"@.len() == 11);
    reveal_strlit("pixelize");
    assert("pixelize"@.len() == 8);
    assert("fadeblack"@[0] == 'f');
    assert("fadeblack"@[4] == 'b');
    assert("fade-black"@[0] == 'f');
    assert("fade-black"@[5] == 'b');
    assert("fadewhite"@[0] == 'f');
    assert("fadewhite"@[4] == 'w');
    assert("fade-white"@[0] == 'f');
    assert("fade-white"@[5] == 'w');
    assert("dissolve"@[0] == 'd');
    assert("wipe-left"@[0] == 'w');
    assert("wipe-left"@[4] == '-');
    assert("wipe-left"@[5] == 'l');
    assert("wipeleft"@[0] == 'w');
    assert("wipeleft"@[4] == 'l');
    assert("wipe-right"@[0] == 'w');
    assert("wiperight"@[0] == 'w');
    assert("wiperight"@[4] == 'r');
    assert("wipe-up"@[0] == 'w');
    assert("wipeup"@[0] == 'w');
    assert("wipe-down"@[0] == 'w');
    assert("wipe-down"@[4] == '-');
    assert("wipe-down"@[5] == 'd');
    assert("wipedown"@[0] == 'w');
    assert("wipedown"@[4] == 'd');
    assert("slide-left"@[0] == 's');
    assert("slide-left"@[1] == 'l');
    assert("slide-left"@[5] == '-');
    assert("slide-left"@[6] == 'l');
    assert("slideleft"@[0] == 's');
    assert("slideleft"@[1] == 'l');
    assert("slideleft"@[5] == 'l');
    assert("slide-right"@[0] == 's');
    assert("slide-right"@[1] == 'l');
    assert("slideright"@[0] == 's');
    assert("slideright"@[1] == 'l');
    assert("slideright"@[5] == 'r');
    assert("slide-up"@[0] == 's');
    assert("slide-up"@[1] == 'l');
    assert("slideup"@[0] == 's');
    assert("slide-down"@[0] == 's');
    assert("slide-down"@[1] == 'l');
    assert("slide-down"@[5] == '-');
    assert("slide-down"@[6] == 'd');
    assert("slidedown"@[0] == 's');
    assert("slidedown"@[1] == 'l');
    assert("slidedown"@[5] == 'd');
    assert("zoomin"@[0] == 'z');
    assert("zoom-in"@[0] == 'z');
    assert("smooth-left"@[0] == 's');
    assert("smooth-left"@[1] == 'm');
    assert("smooth-left"@[6] == '-');
    assert("smooth-left"@[7] == 'l');
    assert("smoothleft"@[0] == 's');
    assert("smoothleft"@[1] == 'm');
    assert("smoothleft"@[6] == 'l');
    assert("smoothright"@[0] == 's');
    assert("smoothright"@[1] == 'm');
    assert("smoothright"@[6] == 'r');
    assert("smooth-up"@[0] == 's');
    assert("smooth-up"@[1] == 'm');
    assert("smoothup"@[0] == 's');
    assert("smoothup"@[1] == 'm');
    assert("smooth-down"@[0] == 's');
    assert("smooth-down"@[1] == 'm');
    assert("smooth-down"@[6] == '-');
    assert("smooth-down"@[7] == 'd');
    assert("smoothdown"@[0] == 's');
    assert("smoothdown"@[1] == 'm');
    assert("smoothdown"@[6] == 'd');
    assert("squeeze-h"@[0] == 's');
    assert("squeeze-h"@[1] == 'q');
    assert("squeeze-h"@[8] == 'h');
    assert("squeezeh"@[0] == 's');
    assert("squeezeh"@[1] == 'q');
    assert("squeezeh"@[7] == 'h');
    assert("squeeze-v"@[0] == 's');
    assert("squeeze-v"@[1] == 'q');
    assert("squeeze-v"@[8] == 'v');
    assert("squeezev"@[0] == 's');
    assert("squeezev"@[1] == 'q');
    assert("squeezev"@[7] == 'v');
    assert("circlecrop"@[0] == 'c');
    assert("circle-crop"@[0] == 'c');
    assert("pixelize"@[0] == 'p');
    match k {
        TransitionKind::Fade => {},
        TransitionKind::FadeBlack => {},
        TransitionKind::FadeWhite => {},
        TransitionKind::Dissolve => {},
        TransitionKind::WipeLeft => {},
        TransitionKind::WipeRight => {},
        TransitionKind::WipeUp => {},
        TransitionKind::WipeDown => {},
        TransitionKind::SlideLeft => {},
        TransitionKind::SlideRight => {},
        TransitionKind::SlideUp => {},
        TransitionKind::SlideDown => {},
        TransitionKind::ZoomIn => {},
        TransitionKind::SmoothLeft => {},
        TransitionKind::SmoothRight => {},
        TransitionKind::SmoothUp => {},
        TransitionKind::SmoothDown => {},
        TransitionKind::SqueezeH => {},
        TransitionKind::SqueezeV => {},
        TransitionKind::CircleCrop => {},
        TransitionKind::Pixelize => {},
    }
}

/// The ranges that the settings of a validated image overlay lie in:
/// scale from 0 to 10 and opacity from 0 to 1, where set.
pub open spec fn image_in_range(o: IrImageOverlayView) -> bool {
    &&& o.scale matches Some(x) ==> 0 <= x.raw <= 10_000_000_000
    &&& o.opacity matches Some(x) ==> 0 <= x.raw <= 1_000_000_000
}

/// An image overlay's attributes keep it in range and on its asset.
proof fn lemma_image_fold_keeps(attrs: Seq<(Seq<char>, ExprView)>, init: IrImageOverlayView, vars: Seq<LetView>, fps: u32)
    requires
        image_in_range(init),
        fold_attrs(attrs, init, image_step(vars, fps)) is Ok,
    ensures
        image_in_range(fold_attrs(attrs, init, image_step(vars, fps))->Ok_0),
        fold_attrs(attrs, init, image_step(vars, fps))->Ok_0.asset_name == init.asset_name,
        fold_attrs(attrs, init, image_step(vars, fps))->Ok_0.asset_path == init.asset_path,
    decreases attrs.len(),
{
    if attrs.len() > 0 {
        let step = image_step(vars, fps);
        let rest = attrs.drop_last();
        assert(fold_attrs(rest, init, step) is Ok);
        lemma_image_fold_keeps(rest, init, vars, fps);
        reveal(image_apply);
    }
}

/// An image overlay that resolves has its scale and opacity within their
/// documented ranges, and shows a declared asset: one of `assets`, of the
/// name it refers to, at that asset's path.
pub proof fn lemma_resolved_image(decl: BlockView, assets: Seq<IrAssetView>, vars: Seq<LetView>, fps: u32)
    requires
        resolve_image_spec(decl, assets, vars, fps) is Ok,
    ensures
        image_in_range(resolve_image_spec(decl, assets, vars, fps)->Ok_0),
        exists|a: IrAssetView| #[trigger] assets.contains(a) && a.name == decl.0
            && a.name == resolve_image_spec(decl, assets, vars, fps)->Ok_0.asset_name
            && a.path == resolve_image_spec(decl, assets, vars, fps)->Ok_0.asset_path,
{
    let a = find_asset(assets, decl.0)->0;
    lemma_find_asset_member(assets, decl.0);
    lemma_image_fold_keeps(decl.1, image_init(a), vars, fps);
    assert(assets.contains(a));
}

} // verus!
