//! What an FFmpeg command for a program is: the timeline sorted into
//! categories, the inputs it reads, the filter graph and the arguments.
use vstd::prelude::*;
use crate::clips_spec::{g_clip_filters, input_index, items_weight, speed_ok, step_if, stream};
use crate::filter_graph::{g_unary, render_filters, GraphView};
use crate::filters::{afade_text, escape_quotes, g_amix, pad_text, trim_text, volume_text};
use crate::fixed::Fixed;
use crate::ir::{
    codec_encoder, quality_crf, quality_preset, FitMode, IrClipView, IrImageOverlayView, IrItemView,
    IrOutputConfigView, IrPipView, IrProgramView, IrProjectView, IrTextOverlayView, IrTrackKind, IrTrackView,
};
use crate::overlays::{g_image_overlays, g_pip_overlays, g_subtitles, g_text_overlays};
use crate::text::{is_alnum, nat_text};

verus! {

/// The items of a timeline sorted by what the command does with them: all
/// items of video tracks, the clips of audio tracks, the text overlays of
/// text tracks, and the image overlays, pictures-in-picture and subtitles
/// of overlay tracks, each in timeline order.
pub struct Cats {
    pub video: Seq<IrItemView>,
    pub audio: Seq<IrClipView>,
    pub texts: Seq<IrTextOverlayView>,
    pub images: Seq<IrImageOverlayView>,
    pub pips: Seq<IrPipView>,
    pub subs: Seq<Seq<char>>,
}

/// No items.
pub open spec fn no_cats() -> Cats {
    Cats {
        video: Seq::empty(),
        audio: Seq::empty(),
        texts: Seq::empty(),
        images: Seq::empty(),
        pips: Seq::empty(),
        subs: Seq::empty(),
    }
}

/// One item of a track of kind `kind` sorted in.
pub open spec fn cat_item(c: Cats, kind: IrTrackKind, it: IrItemView) -> Cats {
    match kind {
        IrTrackKind::Video => Cats { video: c.video.push(it), ..c },
        IrTrackKind::Audio => match it {
            IrItemView::Clip(x) => Cats { audio: c.audio.push(x), ..c },
            _ => c,
        },
        IrTrackKind::Text => match it {
            IrItemView::TextOverlay(x) => Cats { texts: c.texts.push(x), ..c },
            _ => c,
        },
        IrTrackKind::Overlay => match it {
            IrItemView::ImageOverlay(x) => Cats { images: c.images.push(x), ..c },
            IrItemView::Pip(x) => Cats { pips: c.pips.push(x), ..c },
            IrItemView::Subtitle(x) => Cats { subs: c.subs.push(x), ..c },
            _ => c,
        },
    }
}

/// The items of one track sorted in.
pub open spec fn cat_items(c: Cats, kind: IrTrackKind, items: Seq<IrItemView>) -> Cats
    decreases items.len(),
{
    if items.len() == 0 {
        c
    } else {
        cat_item(cat_items(c, kind, items.drop_last()), kind, items.last())
    }
}

/// The items of the tracks sorted in.
pub open spec fn cat_tracks(c: Cats, tracks: Seq<IrTrackView>) -> Cats
    decreases tracks.len(),
{
    if tracks.len() == 0 {
        c
    } else {
        let t = tracks.last();
        cat_items(cat_tracks(c, tracks.drop_last()), t.0, t.1)
    }
}

/// The sorted items of a timeline.
#[verifier::opaque]
pub open spec fn categorize(tracks: Seq<IrTrackView>) -> Cats {
    cat_tracks(no_cats(), tracks)
}

/// The inputs so far, by name and path, with one more asset: added unless
/// its name is there already.
pub open spec fn reg(acc: (Seq<Seq<char>>, Seq<Seq<char>>), name: Seq<char>, path: Seq<char>) -> (Seq<Seq<char>>, Seq<Seq<char>>) {
    if acc.0.contains(name) {
        acc
    } else {
        (acc.0.push(name), acc.1.push(path))
    }
}

/// The inputs of the clips and freeze frames of video items.
pub open spec fn reg_video(acc: (Seq<Seq<char>>, Seq<Seq<char>>), items: Seq<IrItemView>) -> (Seq<Seq<char>>, Seq<Seq<char>>)
    decreases items.len(),
{
    if items.len() == 0 {
        acc
    } else {
        let r = reg_video(acc, items.drop_last());
        match items.last() {
            IrItemView::Clip(c) => reg(r, c.asset_name, c.asset_path),
            IrItemView::Freeze(f) => reg(r, f.asset_name, f.asset_path),
            _ => r,
        }
    }
}

/// The inputs of a run of assets, given by name and path.
pub open spec fn reg_all(acc: (Seq<Seq<char>>, Seq<Seq<char>>), assets: Seq<(Seq<char>, Seq<char>)>) -> (Seq<Seq<char>>, Seq<Seq<char>>)
    decreases assets.len(),
{
    if assets.len() == 0 {
        acc
    } else {
        let a = assets.last();
        reg(reg_all(acc, assets.drop_last()), a.0, a.1)
    }
}

/// The inputs of the command: the assets of video clips and freeze frames,
/// then of audio clips, image overlays and pictures-in-picture, each named
/// once, in order of first use.
#[verifier::opaque]
pub open spec fn register(c: Cats) -> (Seq<Seq<char>>, Seq<Seq<char>>) {
    let r1 = reg_video((Seq::empty(), Seq::empty()), c.video);
    let r2 = reg_all(r1, c.audio.map_values(|x: IrClipView| (x.asset_name, x.asset_path)));
    let r3 = reg_all(r2, c.images.map_values(|x: IrImageOverlayView| (x.asset_name, x.asset_path)));
    reg_all(r3, c.pips.map_values(|x: IrPipView| (x.asset_name, x.asset_path)))
}

/// Registering an asset keeps the names there and adds its own.
pub proof fn lemma_reg_contains(acc: (Seq<Seq<char>>, Seq<Seq<char>>), name: Seq<char>, path: Seq<char>)
    ensures
        reg(acc, name, path).0.contains(name),
        forall|x: Seq<char>| acc.0.contains(x) ==> reg(acc, name, path).0.contains(x),
{
    if !acc.0.contains(name) {
        let r = acc.0.push(name);
        assert(r[r.len() - 1] == name);
        assert forall|x: Seq<char>| acc.0.contains(x) implies r.contains(x) by {
            let k = choose|k: int| 0 <= k < acc.0.len() && acc.0[k] == x;
            assert(r[k] == x);
        }
    }
}

/// Registering a run of assets keeps the names there and adds theirs.
pub proof fn lemma_reg_all_contains(acc: (Seq<Seq<char>>, Seq<Seq<char>>), assets: Seq<(Seq<char>, Seq<char>)>)
    ensures
        forall|x: Seq<char>| acc.0.contains(x) ==> reg_all(acc, assets).0.contains(x),
        forall|i: int| 0 <= i < assets.len() ==> reg_all(acc, assets).0.contains(#[trigger] assets[i].0),
    decreases assets.len(),
{
    if assets.len() > 0 {
        let rest = assets.drop_last();
        lemma_reg_all_contains(acc, rest);
        let a = assets.last();
        lemma_reg_contains(reg_all(acc, rest), a.0, a.1);
        assert forall|i: int| 0 <= i < assets.len() implies reg_all(acc, assets).0.contains(#[trigger] assets[i].0) by {
            if i < assets.len() - 1 {
                assert(rest[i] == assets[i]);
            }
        }
    }
}

/// The asset of a video item that reads an input, if it reads one.
pub open spec fn video_asset(it: IrItemView) -> Option<Seq<char>> {
    match it {
        IrItemView::Clip(c) => Some(c.asset_name),
        IrItemView::Freeze(f) => Some(f.asset_name),
        _ => None,
    }
}

/// Registering video items keeps the names there and adds those they read.
pub proof fn lemma_reg_video_contains(acc: (Seq<Seq<char>>, Seq<Seq<char>>), items: Seq<IrItemView>)
    ensures
        forall|x: Seq<char>| acc.0.contains(x) ==> reg_video(acc, items).0.contains(x),
        forall|i: int| 0 <= i < items.len() && (#[trigger] video_asset(items[i])) is Some
            ==> reg_video(acc, items).0.contains(video_asset(items[i])->0),
    decreases items.len(),
{
    if items.len() > 0 {
        let rest = items.drop_last();
        lemma_reg_video_contains(acc, rest);
        let r = reg_video(acc, rest);
        match items.last() {
            IrItemView::Clip(c) => lemma_reg_contains(r, c.asset_name, c.asset_path),
            IrItemView::Freeze(f) => lemma_reg_contains(r, f.asset_name, f.asset_path),
            _ => {},
        }
        assert forall|i: int| 0 <= i < items.len() && (#[trigger] video_asset(items[i])) is Some implies reg_video(
            acc,
            items,
        ).0.contains(video_asset(items[i])->0) by {
            if i < items.len() - 1 {
                assert(rest[i] == items[i]);
            }
        }
    }
}

/// Every asset that the sorted items read is among the registered inputs.
pub proof fn lemma_register_covers(c: Cats)
    ensures
        forall|i: int| 0 <= i < c.video.len() && (#[trigger] video_asset(c.video[i])) is Some
            ==> register(c).0.contains(video_asset(c.video[i])->0),
        forall|i: int| 0 <= i < c.audio.len() ==> register(c).0.contains(#[trigger] c.audio[i].asset_name),
        forall|i: int| 0 <= i < c.images.len() ==> register(c).0.contains(#[trigger] c.images[i].asset_name),
        forall|i: int| 0 <= i < c.pips.len() ==> register(c).0.contains(#[trigger] c.pips[i].asset_name),
{
    reveal(register);
    let e = (Seq::<Seq<char>>::empty(), Seq::<Seq<char>>::empty());
    let a = c.audio.map_values(|x: IrClipView| (x.asset_name, x.asset_path));
    let b = c.images.map_values(|x: IrImageOverlayView| (x.asset_name, x.asset_path));
    let p = c.pips.map_values(|x: IrPipView| (x.asset_name, x.asset_path));
    let r1 = reg_video(e, c.video);
    let r2 = reg_all(r1, a);
    let r3 = reg_all(r2, b);
    lemma_reg_video_contains(e, c.video);
    lemma_reg_all_contains(r1, a);
    lemma_reg_all_contains(r2, b);
    lemma_reg_all_contains(r3, p);
    assert forall|i: int| 0 <= i < c.audio.len() implies register(c).0.contains(#[trigger] c.audio[i].asset_name) by {
        assert(a[i].0 == c.audio[i].asset_name);
    }
    assert forall|i: int| 0 <= i < c.images.len() implies register(c).0.contains(#[trigger] c.images[i].asset_name) by {
        assert(b[i].0 == c.images[i].asset_name);
    }
    assert forall|i: int| 0 <= i < c.pips.len() implies register(c).0.contains(#[trigger] c.pips[i].asset_name) by {
        assert(p[i].0 == c.pips[i].asset_name);
    }
}

/// The audio chain of a clip of an audio track: trimmed, at its volume,
/// with its fades.
pub open spec fn g_audio_clip(g: GraphView, c: IrClipView, names: Seq<Seq<char>>) -> (GraphView, Seq<char>) {
    let s1 = g_unary(g, "ta"@, stream(input_index(names, c.asset_name), ":a"@), trim_text(
        "atrim"@,
        c.from_sec,
        c.to_sec,
        ",asetpts=PTS-STARTPTS"@,
    ));
    let s2 = match c.volume {
        Some(v) => g_unary(s1.0, "vol"@, s1.1, volume_text(v)),
        None => s1,
    };
    let s3 = match c.fade_in_sec {
        Some(fi) => g_unary(s2.0, "af"@, s2.1, afade_text("in"@, Fixed { raw: 0 }, fi)),
        None => s2,
    };
    match c.fade_out_sec {
        Some(fo) => g_unary(s3.0, "af"@, s3.1, afade_text("out"@, Fixed { raw: 0 }, fo)),
        None => s3,
    }
}

/// The audio chains of the audio track clips, one after the other, with
/// their labels.
pub open spec fn g_audio_clips(g: GraphView, clips: Seq<IrClipView>, names: Seq<Seq<char>>) -> (GraphView, Seq<Seq<char>>)
    decreases clips.len(),
{
    if clips.len() == 0 {
        (g, Seq::empty())
    } else {
        let r = g_audio_clips(g, clips.drop_last(), names);
        let a = g_audio_clip(r.0, clips.last(), names);
        (a.0, r.1.push(a.1))
    }
}

/// A label in brackets, as `-map` takes it.
pub open spec fn bracket(l: Seq<char>) -> Seq<char> {
    "["@ + l + "]"@
}

/// The video part of a program's graph: the video track as clips,
/// letterboxed when the fit mode asks it, with the overlays laid on; the
/// graph, the final video label and the track's audio label.
#[verifier::opaque]
pub open spec fn g_program_video(c: Cats, names: Seq<Seq<char>>, p: IrProjectView) -> (GraphView, (Seq<char>, Seq<char>)) {
    let g0 = GraphView { filters: Seq::empty(), counter: 0 };
    let cf = g_clip_filters(g0, c.video, names, p.width, p.height, p.fps);
    let vout = cf.1.0;
    let s1 = step_if(p.fit == FitMode::Letterbox, (cf.0, vout), g_unary(cf.0, "pad"@, vout, pad_text(p.width, p.height, "black"@)));
    let s2 = g_pip_overlays(s1.0, c.pips, s1.1, names, p.width, p.height);
    let s3 = g_image_overlays(s2.0, c.images, s2.1, names);
    let s4 = g_subtitles(s3.0, c.subs, s3.1);
    let s5 = g_text_overlays(s4.0, c.texts, s4.1);
    (s5.0, (s5.1, cf.1.1))
}

/// The audio part of a program's graph: the video track's audio `aout`,
/// mixed with the audio track clips when there are any; the graph and the
/// label to map.
#[verifier::opaque]
pub open spec fn g_program_audio(g: GraphView, c: Cats, names: Seq<Seq<char>>, aout: Seq<char>) -> (GraphView, Seq<char>) {
    if c.audio.len() > 0 {
        let am = g_audio_clips(g, c.audio, names);
        let labels = seq![aout] + am.1;
        if labels.len() == 1 {
            (am.0, labels[0])
        } else {
            g_amix(am.0, labels, labels.len())
        }
    } else {
        (g, aout)
    }
}

/// The filter graph of a program and its `-map` arguments: none without a
/// video track item, else the video and the audio labels.
pub open spec fn g_program(c: Cats, names: Seq<Seq<char>>, p: IrProjectView) -> (GraphView, Seq<Seq<char>>) {
    if c.video.len() == 0 {
        (GraphView { filters: Seq::empty(), counter: 0 }, Seq::empty())
    } else {
        let pv = g_program_video(c, names, p);
        let pa = g_program_audio(pv.0, c, names, pv.1.1);
        (pa.0, seq![bracket(pv.1.0), bracket(pa.1)])
    }
}

/// The encoding arguments for the project's settings.
pub open spec fn output_args_spec(p: IrProjectView) -> Seq<Seq<char>> {
    seq![
        "-c:v"@,
        codec_encoder(p.codec),
        "-preset"@,
        quality_preset(p.quality),
        "-crf"@,
        nat_text(quality_crf(p.quality) as nat),
        "-s"@,
        nat_text(p.width as nat) + "x"@ + nat_text(p.height as nat),
        "-r"@,
        nat_text(p.fps as nat),
        "-c:a"@,
        "aac"@,
    ]
}

/// An FFmpeg invocation with its text held as character sequences.
pub struct CommandView {
    pub inputs: Seq<Seq<char>>,
    pub filter_graph: Option<Seq<char>>,
    pub map_args: Seq<Seq<char>>,
    pub output_args: Seq<Seq<char>>,
    pub output_path: Seq<char>,
}

/// The command that renders the program `ir` with the project settings
/// `p` to `out`.
pub open spec fn generate_spec(ir: IrProgramView, p: IrProjectView, out: Seq<char>) -> CommandView {
    let c = categorize(ir.timeline.1);
    let r = register(c);
    let gm = g_program(c, r.0, p);
    CommandView {
        inputs: r.1,
        filter_graph: if gm.0.filters.len() == 0 { None } else { Some(render_filters(gm.0.filters)) },
        map_args: gm.1,
        output_args: output_args_spec(p),
        output_path: out,
    }
}

/// The clips of the video items have positive speeds where set.
pub open spec fn speeds_ok(items: Seq<IrItemView>) -> bool {
    forall|i: int| 0 <= i < items.len() ==> (#[trigger] items[i] matches IrItemView::Clip(c) ==> speed_ok(c))
}

/// An upper bound on the labels that the command for the sorted items
/// hands out.
pub open spec fn label_budget(c: Cats) -> nat {
    100 * items_weight(c.video) + 3 * c.pips.len() + 3 * c.images.len() + c.subs.len() + c.texts.len() + 4 * c.audio.len() + 4
}

/// A program whose command can be built: each clip of a video track plays
/// at a positive speed where one is set (a tempo chain ends only then), and
/// the labels of its filter graph can be counted in a `usize`.
pub open spec fn codegen_ready(ir: IrProgramView) -> bool {
    let c = categorize(ir.timeline.1);
    speeds_ok(c.video) && label_budget(c) <= usize::MAX
}

/// The project settings with those that an output sets in their place.
pub open spec fn project_for(p: IrProjectView, cfg: IrOutputConfigView) -> IrProjectView {
    IrProjectView {
        width: match cfg.width {
            Some(w) => w,
            None => p.width,
        },
        height: match cfg.height {
            Some(h) => h,
            None => p.height,
        },
        format: match cfg.format {
            Some(f) => f,
            None => p.format,
        },
        codec: match cfg.codec {
            Some(c) => c,
            None => p.codec,
        },
        quality: match cfg.quality {
            Some(q) => q,
            None => p.quality,
        },
        ..p
    }
}

/// The commands for all outputs: one to `default_output` when the program
/// declares none, else one per declared output, with its settings, to its
/// path.
pub open spec fn generate_all_spec(ir: IrProgramView, default_output: Seq<char>) -> Seq<CommandView> {
    if ir.outputs.len() == 0 {
        seq![generate_spec(ir, ir.project, default_output)]
    } else {
        ir.outputs.map_values(|cfg: IrOutputConfigView| generate_spec(ir, project_for(ir.project, cfg), cfg.path))
    }
}

/// `flag` before each of the values.
pub open spec fn flag_pairs(flag: Seq<char>, xs: Seq<Seq<char>>) -> Seq<Seq<char>>
    decreases xs.len(),
{
    if xs.len() == 0 {
        Seq::empty()
    } else {
        flag_pairs(flag, xs.drop_last()) + seq![flag, xs.last()]
    }
}

/// The command-line arguments of a command: overwrite, the inputs, the
/// filter graph, the maps, the encoding arguments and the output path.
pub open spec fn args_spec(c: CommandView) -> Seq<Seq<char>> {
    seq!["-y"@] + flag_pairs("-i"@, c.inputs) + match c.filter_graph {
        Some(f) => seq!["-filter_complex"@, f],
        None => Seq::empty(),
    } + flag_pairs("-map"@, c.map_args) + c.output_args + seq![c.output_path]
}

/// A character that a shell reads as itself.
pub open spec fn shell_safe(c: char) -> bool {
    is_alnum(c) || c == '-' || c == '_' || c == '.' || c == '/' || c == ':' || c == '=' || c == ',' || c == '+' || c
        == '@' || c == '%'
}

/// An argument as a shell word: as it is when every character is safe,
/// else in single quotes.
pub open spec fn shell_word(a: Seq<char>) -> Seq<char> {
    if a.len() > 0 && forall|i: int| 0 <= i < a.len() ==> #[trigger] shell_safe(a[i]) {
        a
    } else {
        "'"@ + escape_quotes(a) + "'"@
    }
}

/// The command line that runs FFmpeg with `args`.
pub open spec fn command_line(args: Seq<Seq<char>>) -> Seq<char>
    decreases args.len(),
{
    if args.len() == 0 {
        "ffmpeg"@
    } else {
        command_line(args.drop_last()) + " "@ + shell_word(args.last())
    }
}

} // verus!
