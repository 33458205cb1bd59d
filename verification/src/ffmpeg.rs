//! FFmpeg command generation: the timeline sorted into categories, the
//! inputs registered, and the filter graph and arguments built.
use vstd::prelude::*;
use crate::clips::{build_clip_filters, input_idx, item_refs_view, stream_label};
use crate::clips_spec::{item_weight, items_ready, items_weight, speed_ok};
use crate::ffmpeg_spec::{
    bracket, cat_item, cat_items, cat_tracks, categorize, codegen_ready, g_audio_clip, g_audio_clips,
    g_program_audio, g_program_video, label_budget, generate_all_spec, project_for, flag_pairs, args_spec,
    command_line, shell_safe, shell_word,
    generate_spec, lemma_register_covers, no_cats, output_args_spec, reg, reg_all, reg_video, register,
    speeds_ok, video_asset, Cats, CommandView,
};
use crate::filter_graph::{FilterGraph, GraphView};
use crate::filters::{push_escaped, push_u64};
use crate::fixed::Fixed;
use crate::ir::{FitMode, IrOutputConfigView, IrProject};
use crate::overlays::{apply_image_overlays, apply_pip_overlays, apply_subtitles, apply_text_overlays};
use crate::text::{chars_of, nat_text, push_str, string_of};
use crate::filter_graph::texts;
use crate::ir::{
    IrClip, IrClipView, IrImageOverlay, IrImageOverlayView, IrItemView, IrPip, IrPipView, IrProgram, IrSubtitle,
    IrTextOverlay, IrTrack, IrTrackItem, IrTrackKind, IrTrackView,
};
use crate::semantic::name_among;

verus! {

/// A single `-i` input.
#[derive(Debug, Clone)]
pub struct InputSpec {
    pub path: String,
}

impl View for InputSpec {
    type V = Seq<char>;

    open spec fn view(&self) -> Seq<char> {
        self.path@
    }
}

/// The paths of a run of inputs.
pub open spec fn inputs_view(v: Seq<InputSpec>) -> Seq<Seq<char>> {
    v.map_values(|i: InputSpec| i@)
}

/// The items of a timeline sorted by what the command does with them.
pub struct TrackCategories<'a> {
    pub video_items: Vec<&'a IrTrackItem>,
    pub audio_clips: Vec<&'a IrClip>,
    pub text_overlays: Vec<&'a IrTextOverlay>,
    pub image_overlays: Vec<&'a IrImageOverlay>,
    pub pip_items: Vec<&'a IrPip>,
    pub subtitle_items: Vec<&'a IrSubtitle>,
}

impl<'a> View for TrackCategories<'a> {
    type V = Cats;

    open spec fn view(&self) -> Cats {
        Cats {
            video: self.video_items@.map_values(|i: &IrTrackItem| i@),
            audio: self.audio_clips@.map_values(|c: &IrClip| c@),
            texts: self.text_overlays@.map_values(|t: &IrTextOverlay| t@),
            images: self.image_overlays@.map_values(|o: &IrImageOverlay| o@),
            pips: self.pip_items@.map_values(|p: &IrPip| p@),
            subs: self.subtitle_items@.map_values(|s: &IrSubtitle| s.path@),
        }
    }
}

/// The views of a run of tracks.
pub open spec fn tracks_view(v: Seq<IrTrack>) -> Seq<IrTrackView> {
    v.map_values(|t: IrTrack| t@)
}

/// One item of a track of kind `kind` sorted in.
fn sort_item<'a>(cats: &mut TrackCategories<'a>, kind: IrTrackKind, item: &'a IrTrackItem)
    ensures
        final(cats)@ == cat_item(old(cats)@, kind, item@),
{
    let ghost c0 = cats@;
    match kind {
        IrTrackKind::Video => {
            cats.video_items.push(item);
            assert(cats@.video =~= c0.video.push(item@));
        },
        IrTrackKind::Audio => {
            if let IrTrackItem::Clip(c) = item {
                cats.audio_clips.push(c);
                assert(cats@.audio =~= c0.audio.push(c@));
            }
        },
        IrTrackKind::Text => {
            if let IrTrackItem::TextOverlay(t) = item {
                cats.text_overlays.push(t);
                assert(cats@.texts =~= c0.texts.push(t@));
            }
        },
        IrTrackKind::Overlay => {
            match item {
                IrTrackItem::ImageOverlay(o) => {
                    cats.image_overlays.push(o);
                    assert(cats@.images =~= c0.images.push(o@));
                },
                IrTrackItem::Pip(p) => {
                    cats.pip_items.push(p);
                    assert(cats@.pips =~= c0.pips.push(p@));
                },
                IrTrackItem::Subtitle(s) => {
                    cats.subtitle_items.push(s);
                    assert(cats@.subs =~= c0.subs.push(s.path@));
                },
                _ => {},
            }
        },
    }
}

/// The items of the timeline sorted by what the command does with them.
pub fn categorize_tracks(ir: &IrProgram) -> (cats: TrackCategories<'_>)
    ensures
        cats@ == categorize(tracks_view(ir.timeline.tracks@)),
{
    reveal(categorize);
    let ghost tv = tracks_view(ir.timeline.tracks@);
    let mut cats = TrackCategories {
        video_items: Vec::new(),
        audio_clips: Vec::new(),
        text_overlays: Vec::new(),
        image_overlays: Vec::new(),
        pip_items: Vec::new(),
        subtitle_items: Vec::new(),
    };
    assert(cats@ == no_cats()) by {
        assert(cats@.video =~= Seq::<IrItemView>::empty());
        assert(cats@.audio =~= Seq::<IrClipView>::empty());
        assert(cats@.texts =~= Seq::<crate::ir::IrTextOverlayView>::empty());
        assert(cats@.images =~= Seq::<IrImageOverlayView>::empty());
        assert(cats@.pips =~= Seq::<IrPipView>::empty());
        assert(cats@.subs =~= Seq::<Seq<char>>::empty());
    }
    let mut t: usize = 0;
    assert(tv.take(0) =~= Seq::<IrTrackView>::empty());
    while t < ir.timeline.tracks.len()
        invariant
            t <= ir.timeline.tracks@.len(),
            tv == tracks_view(ir.timeline.tracks@),
            cats@ == cat_tracks(no_cats(), tv.take(t as int)),
        decreases ir.timeline.tracks@.len() - t,
    {
        let track = &ir.timeline.tracks[t];
        let ghost iv = track@.1;
        let ghost start = cats@;
        let mut i: usize = 0;
        assert(iv.take(0) =~= Seq::<IrItemView>::empty());
        while i < track.items.len()
            invariant
                i <= track.items@.len(),
                iv == track@.1,
                iv.len() == track.items@.len(),
                cats@ == cat_items(start, track.kind, iv.take(i as int)),
            decreases track.items@.len() - i,
        {
            sort_item(&mut cats, track.kind, &track.items[i]);
            assert(iv.take(i + 1).drop_last() =~= iv.take(i as int));
            i = i + 1;
        }
        assert(iv.take(i as int) =~= iv);
        assert(tv.take(t + 1).drop_last() =~= tv.take(t as int));
        assert(tv.take(t + 1).last() == track@);
        t = t + 1;
    }
    assert(tv.take(t as int) =~= tv);
    cats
}

/// An input for the asset `name` at `path`, unless one is there already.
fn reg_input(names: &mut Vec<String>, inputs: &mut Vec<InputSpec>, name: &String, path: &String)
    requires
        old(names)@.len() == old(inputs)@.len(),
    ensures
        final(names)@.len() == final(inputs)@.len(),
        (texts(final(names)@), inputs_view(final(inputs)@)) == reg((texts(old(names)@), inputs_view(old(inputs)@)), name@, path@),
{
    let n = names.len();
    assert(names@.take(n as int) =~= names@);
    if !name_among(names, n, name) {
        let ghost nb = texts(names@);
        let ghost ib = inputs_view(inputs@);
        names.push(name.clone());
        inputs.push(InputSpec { path: path.clone() });
        assert(texts(names@) =~= nb.push(name@));
        assert(inputs_view(inputs@) =~= ib.push(path@));
    }
}

/// The inputs of the command, each asset once in order of first use, and
/// their names (the name at position `i` is input `i`).
#[verifier::rlimit(30)]
pub fn register_inputs(cats: &TrackCategories) -> (r: (Vec<InputSpec>, Vec<String>))
    ensures
        (texts(r.1@), inputs_view(r.0@)) == register(cats@),
{
    reveal(register);
    let mut inputs: Vec<InputSpec> = Vec::new();
    let mut names: Vec<String> = Vec::new();
    let ghost v = cats@.video;
    let mut i: usize = 0;
    assert(texts(names@) =~= Seq::<Seq<char>>::empty());
    assert(inputs_view(inputs@) =~= Seq::<Seq<char>>::empty());
    assert(v.take(0) =~= Seq::<IrItemView>::empty());
    while i < cats.video_items.len()
        invariant
            i <= cats.video_items@.len(),
            v == cats@.video,
            names@.len() == inputs@.len(),
            (texts(names@), inputs_view(inputs@)) == reg_video((Seq::empty(), Seq::empty()), v.take(i as int)),
        decreases cats.video_items@.len() - i,
    {
        assert(v.take(i + 1).drop_last() =~= v.take(i as int));
        assert(v.take(i + 1).last() == cats.video_items@[i as int]@);
        match cats.video_items[i] {
            IrTrackItem::Clip(c) => reg_input(&mut names, &mut inputs, &c.asset_name, &c.asset_path),
            IrTrackItem::Freeze(f) => reg_input(&mut names, &mut inputs, &f.asset_name, &f.asset_path),
            _ => {},
        }
        i = i + 1;
    }
    assert(v.take(i as int) =~= v);
    let ghost r1 = (texts(names@), inputs_view(inputs@));
    let ghost a = cats@.audio.map_values(|x: IrClipView| (x.asset_name, x.asset_path));
    let mut i: usize = 0;
    assert(a.take(0) =~= Seq::<(Seq<char>, Seq<char>)>::empty());
    while i < cats.audio_clips.len()
        invariant
            i <= cats.audio_clips@.len(),
            a == cats@.audio.map_values(|x: IrClipView| (x.asset_name, x.asset_path)),
            names@.len() == inputs@.len(),
            (texts(names@), inputs_view(inputs@)) == reg_all(r1, a.take(i as int)),
        decreases cats.audio_clips@.len() - i,
    {
        assert(a.take(i + 1).drop_last() =~= a.take(i as int));
        let c = cats.audio_clips[i];
        reg_input(&mut names, &mut inputs, &c.asset_name, &c.asset_path);
        i = i + 1;
    }
    assert(a.take(i as int) =~= a);
    let ghost r2 = (texts(names@), inputs_view(inputs@));
    let ghost b = cats@.images.map_values(|x: IrImageOverlayView| (x.asset_name, x.asset_path));
    let mut i: usize = 0;
    assert(b.take(0) =~= Seq::<(Seq<char>, Seq<char>)>::empty());
    while i < cats.image_overlays.len()
        invariant
            i <= cats.image_overlays@.len(),
            b == cats@.images.map_values(|x: IrImageOverlayView| (x.asset_name, x.asset_path)),
            names@.len() == inputs@.len(),
            (texts(names@), inputs_view(inputs@)) == reg_all(r2, b.take(i as int)),
        decreases cats.image_overlays@.len() - i,
    {
        assert(b.take(i + 1).drop_last() =~= b.take(i as int));
        let o = cats.image_overlays[i];
        reg_input(&mut names, &mut inputs, &o.asset_name, &o.asset_path);
        i = i + 1;
    }
    assert(b.take(i as int) =~= b);
    let ghost r3 = (texts(names@), inputs_view(inputs@));
    let ghost p = cats@.pips.map_values(|x: IrPipView| (x.asset_name, x.asset_path));
    let mut i: usize = 0;
    assert(p.take(0) =~= Seq::<(Seq<char>, Seq<char>)>::empty());
    while i < cats.pip_items.len()
        invariant
            i <= cats.pip_items@.len(),
            p == cats@.pips.map_values(|x: IrPipView| (x.asset_name, x.asset_path)),
            names@.len() == inputs@.len(),
            (texts(names@), inputs_view(inputs@)) == reg_all(r3, p.take(i as int)),
        decreases cats.pip_items@.len() - i,
    {
        assert(p.take(i + 1).drop_last() =~= p.take(i as int));
        let x = cats.pip_items[i];
        reg_input(&mut names, &mut inputs, &x.asset_name, &x.asset_path);
        i = i + 1;
    }
    assert(p.take(i as int) =~= p);
    (inputs, names)
}

/// A complete FFmpeg invocation ready to be turned into arguments.
#[derive(Debug, Clone)]
pub struct FfmpegCommand {
    pub inputs: Vec<InputSpec>,
    pub filter_graph: Option<String>,
    pub map_args: Vec<String>,
    pub output_args: Vec<String>,
    pub output_path: String,
}

impl View for FfmpegCommand {
    type V = CommandView;

    open spec fn view(&self) -> CommandView {
        CommandView {
            inputs: inputs_view(self.inputs@),
            filter_graph: match self.filter_graph {
                Some(f) => Some(f@),
                None => None,
            },
            map_args: texts(self.map_args@),
            output_args: texts(self.output_args@),
            output_path: self.output_path@,
        }
    }
}

/// The decimal text of `n`.
fn num_text(n: u64) -> (s: String)
    ensures
        s@ == nat_text(n as nat),
{
    let mut s = String::new();
    push_u64(&mut s, n);
    assert(s@ =~= nat_text(n as nat));
    s
}

/// The encoding arguments for the project's settings: codec, preset,
/// quality, size, frame rate and audio codec.
pub fn build_output_args(project: &IrProject) -> (r: Vec<String>)
    ensures
        texts(r@) == output_args_spec(project@),
{
    let mut size = num_text(project.width as u64);
    push_str(&mut size, "x");
    push_str(&mut size, num_text(project.height as u64).as_str());
    let r = vec![
        string_of("-c:v"),
        string_of(project.codec.ffmpeg_encoder()),
        string_of("-preset"),
        string_of(project.quality.ffmpeg_preset()),
        string_of("-crf"),
        num_text(project.quality.ffmpeg_crf() as u64),
        string_of("-s"),
        size,
        string_of("-r"),
        num_text(project.fps as u64),
        string_of("-c:a"),
        string_of("aac"),
    ];
    assert(texts(r@) =~= output_args_spec(project@));
    r
}

/// `[label]`.
fn bracket_exec(l: &str) -> (s: String)
    ensures
        s@ == bracket(l@),
{
    let mut s = string_of("[");
    push_str(&mut s, l);
    push_str(&mut s, "]");
    assert(s@ =~= bracket(l@));
    s
}

/// The audio chain of a clip of an audio track.
fn audio_clip_chain(clip: &IrClip, input_map: &Vec<String>, graph: &mut FilterGraph) -> (out: String)
    requires
        texts(input_map@).contains(clip@.asset_name),
        old(graph)@.counter + 4 <= usize::MAX,
    ensures
        (final(graph)@, out@) == g_audio_clip(old(graph)@, clip@, texts(input_map@)),
        final(graph)@.counter <= old(graph)@.counter + 4,
{
    let idx = input_idx(input_map, &clip.asset_name);
    let input = stream_label(idx, ":a");
    let mut a = graph.add_atrim(input.as_str(), clip.from_sec, clip.to_sec);
    if let Some(vol) = clip.volume {
        a = graph.add_volume(a.as_str(), vol);
    }
    if let Some(fi) = clip.fade_in_sec {
        a = graph.add_afade(a.as_str(), "in", Fixed { raw: 0 }, fi);
    }
    if let Some(fo) = clip.fade_out_sec {
        a = graph.add_afade(a.as_str(), "out", Fixed { raw: 0 }, fo);
    }
    a
}

/// The video part of a program's graph, with the overlays laid on.
#[verifier::rlimit(30)]
fn program_video(
    cats: &TrackCategories,
    input_map: &Vec<String>,
    graph: &mut FilterGraph,
    project: &IrProject,
) -> (r: (String, String))
    requires
        old(graph)@ == (GraphView { filters: Seq::empty(), counter: 0 }),
        items_ready(cats@.video, texts(input_map@)),
        forall|i: int| 0 <= i < cats@.images.len() ==> texts(input_map@).contains(#[trigger] cats@.images[i].asset_name),
        forall|i: int| 0 <= i < cats@.pips.len() ==> texts(input_map@).contains(#[trigger] cats@.pips[i].asset_name),
        label_budget(cats@) <= usize::MAX,
    ensures
        (final(graph)@, (r.0@, r.1@)) == g_program_video(cats@, texts(input_map@), project@),
        final(graph)@.counter + 4 * cats@.audio.len() + 1 <= label_budget(cats@),
{
    reveal(g_program_video);
    let (vout, aout) = build_clip_filters(
        cats.video_items.as_slice(),
        input_map,
        graph,
        project.width,
        project.height,
        project.fps,
    );
    let vout = if project.fit == FitMode::Letterbox {
        graph.add_pad(vout.as_str(), project.width, project.height, "black")
    } else {
        vout
    };
    assert forall|i: int| 0 <= i < cats.pip_items@.len() implies texts(input_map@).contains(
        #[trigger] cats.pip_items@[i]@.asset_name,
    ) by {
        assert(cats@.pips[i] == cats.pip_items@[i]@);
    }
    assert forall|i: int| 0 <= i < cats.image_overlays@.len() implies texts(input_map@).contains(
        #[trigger] cats.image_overlays@[i]@.asset_name,
    ) by {
        assert(cats@.images[i] == cats.image_overlays@[i]@);
    }
    let v = apply_pip_overlays(cats.pip_items.as_slice(), vout.as_str(), input_map, graph, project.width, project.height);
    let v = apply_image_overlays(cats.image_overlays.as_slice(), v.as_str(), input_map, graph);
    let v = apply_subtitles(cats.subtitle_items.as_slice(), v.as_str(), graph);
    let v = apply_text_overlays(cats.text_overlays.as_slice(), v.as_str(), graph);
    (v, aout)
}

/// The audio part of a program's graph: the label to map.
#[verifier::rlimit(30)]
fn program_audio(cats: &TrackCategories, input_map: &Vec<String>, graph: &mut FilterGraph, aout: String) -> (r: String)
    requires
        forall|i: int| 0 <= i < cats@.audio.len() ==> texts(input_map@).contains(#[trigger] cats@.audio[i].asset_name),
        old(graph)@.counter + 4 * cats@.audio.len() + 1 <= usize::MAX,
    ensures
        (final(graph)@, r@) == g_program_audio(old(graph)@, cats@, texts(input_map@), aout@),
{
    reveal(g_program_audio);
    let ghost names = texts(input_map@);
    if cats.audio_clips.len() > 0 {
        let ghost g5 = graph@;
        let ghost aview = cats@.audio;
        let mut labels: Vec<String> = vec![aout];
        let mut i: usize = 0;
        assert(aview.take(0) =~= Seq::<IrClipView>::empty());
        assert(texts(labels@).drop_first() =~= Seq::<Seq<char>>::empty());
        let ghost a0 = labels@[0]@;
        while i < cats.audio_clips.len()
            invariant
                i <= cats.audio_clips@.len(),
                aview == cats@.audio,
                names == texts(input_map@),
                forall|k: int| 0 <= k < aview.len() ==> names.contains(#[trigger] aview[k].asset_name),
                graph@.counter <= g5.counter + 4 * i,
                g5.counter + 4 * aview.len() + 1 <= usize::MAX,
                texts(labels@).len() == i + 1,
                texts(labels@)[0] == a0,
                a0 == aout@,
                g_audio_clips(g5, aview.take(i as int), names) == (graph@, texts(labels@).drop_first()),
            decreases cats.audio_clips@.len() - i,
        {
            let clip = cats.audio_clips[i];
            assert(aview[i as int] == clip@);
            assert(names.contains(aview[i as int].asset_name));
            assert(aview.take(i + 1).drop_last() =~= aview.take(i as int));
            let ghost lb = texts(labels@);
            let a = audio_clip_chain(clip, input_map, graph);
            labels.push(a);
            assert(texts(labels@) =~= lb.push(a@));
            assert(texts(labels@).drop_first() =~= lb.drop_first().push(a@));
            i = i + 1;
        }
        assert(aview.take(i as int) =~= aview);
        assert(texts(labels@) =~= seq![a0] + texts(labels@).drop_first());
        if labels.len() == 1 {
            labels[0].clone()
        } else {
            let n = labels.len();
            graph.add_amix(labels.as_slice(), n)
        }
    } else {
        aout
    }
}

/// The FFmpeg command that renders `ir` with the project settings
/// `project` to `output_path`.
#[verifier::rlimit(30)]
pub fn generate_for(ir: &IrProgram, project: &IrProject, output_path: &str) -> (cmd: FfmpegCommand)
    requires
        codegen_ready(ir@),
    ensures
        cmd@ == generate_spec(ir@, project@, output_path@),
{
    let ghost c = categorize(ir@.timeline.1);
    let mut graph = FilterGraph::new();
    let cats = categorize_tracks(ir);
    let (inputs, input_map) = register_inputs(&cats);
    let ghost names = texts(input_map@);
    proof {
        lemma_register_covers(c);
        assert forall|i: int| 0 <= i < c.video.len() implies match #[trigger] c.video[i] {
            IrItemView::Clip(x) => names.contains(x.asset_name) && speed_ok(x),
            IrItemView::Freeze(f) => names.contains(f.asset_name),
            _ => true,
        } by {
            assert(video_asset(c.video[i]) is Some || !(c.video[i] is Clip || c.video[i] is Freeze));
        }
        assert(items_ready(c.video, names));
    }
    let mut map_args: Vec<String> = Vec::new();
    if cats.video_items.len() > 0 {
        assert(graph@ == (GraphView { filters: Seq::empty(), counter: 0 }));
        let (v, aout) = program_video(&cats, &input_map, &mut graph, project);
        let a = program_audio(&cats, &input_map, &mut graph, aout);
        map_args.push(bracket_exec(v.as_str()));
        map_args.push(bracket_exec(a.as_str()));
        assert(texts(map_args@) =~= seq![bracket(v@), bracket(a@)]);
    } else {
        assert(texts(map_args@) =~= Seq::<Seq<char>>::empty());
    }
    let output_args = build_output_args(project);
    let filter_graph = if graph.is_empty() { None } else { Some(graph.render()) };
    FfmpegCommand { inputs, filter_graph, map_args, output_args, output_path: string_of(output_path) }
}

/// The FFmpeg command that renders `ir` to `output_path`.
pub fn generate(ir: &IrProgram, output_path: &str) -> (cmd: FfmpegCommand)
    requires
        codegen_ready(ir@),
    ensures
        cmd@ == generate_spec(ir@, ir@.project, output_path@),
{
    generate_for(ir, &ir.project, output_path)
}

/// The commands for all outputs: one to `default_output` when the program
/// declares none, else one per declared output.
pub fn generate_all(ir: &IrProgram, default_output: &str) -> (cmds: Vec<FfmpegCommand>)
    requires
        codegen_ready(ir@),
    ensures
        cmds@.map_values(|c: FfmpegCommand| c@) == generate_all_spec(ir@, default_output@),
{
    if ir.outputs.len() == 0 {
        let cmds = vec![generate(ir, default_output)];
        assert(cmds@.map_values(|c: FfmpegCommand| c@) =~= generate_all_spec(ir@, default_output@));
        return cmds;
    }
    let ghost outs = ir@.outputs;
    let mut cmds: Vec<FfmpegCommand> = Vec::new();
    let mut i: usize = 0;
    while i < ir.outputs.len()
        invariant
            i <= ir.outputs@.len(),
            outs == ir@.outputs,
            outs.len() == ir.outputs@.len(),
            codegen_ready(ir@),
            cmds@.map_values(|c: FfmpegCommand| c@) == outs.take(i as int).map_values(
                |cfg: IrOutputConfigView| generate_spec(ir@, project_for(ir@.project, cfg), cfg.path),
            ),
        decreases ir.outputs@.len() - i,
    {
        let cfg = &ir.outputs[i];
        assert(outs[i as int] == cfg@);
        let p = IrProject {
            name: ir.project.name.clone(),
            width: match cfg.width {
                Some(w) => w,
                None => ir.project.width,
            },
            height: match cfg.height {
                Some(h) => h,
                None => ir.project.height,
            },
            fps: ir.project.fps,
            format: match cfg.format {
                Some(f) => f,
                None => ir.project.format,
            },
            codec: match cfg.codec {
                Some(c) => c,
                None => ir.project.codec,
            },
            quality: match cfg.quality {
                Some(q) => q,
                None => ir.project.quality,
            },
            fit: ir.project.fit,
        };
        assert(p@ == project_for(ir@.project, cfg@));
        let cmd = generate_for(ir, &p, cfg.path.as_str());
        let ghost before = cmds@.map_values(|c: FfmpegCommand| c@);
        cmds.push(cmd);
        assert(cmds@.map_values(|c: FfmpegCommand| c@) =~= before.push(cmd@));
        assert(outs.take(i + 1).map_values(|cfg: IrOutputConfigView| generate_spec(ir@, project_for(ir@.project, cfg), cfg.path))
            =~= outs.take(i as int).map_values(
            |cfg: IrOutputConfigView| generate_spec(ir@, project_for(ir@.project, cfg), cfg.path),
        ).push(generate_spec(ir@, project_for(ir@.project, cfg@), cfg@.path)));
        i = i + 1;
    }
    assert(outs.take(i as int) =~= outs);
    cmds
}

/// Appends `flag` and each value in turn to `args`.
fn push_flag_pairs(args: &mut Vec<String>, flag: &str, xs: &Vec<String>)
    ensures
        texts(final(args)@) == texts(old(args)@) + flag_pairs(flag@, texts(xs@)),
{
    let ghost start = texts(args@);
    let mut i: usize = 0;
    assert(texts(xs@).take(0) =~= Seq::<Seq<char>>::empty());
    while i < xs.len()
        invariant
            i <= xs@.len(),
            texts(args@) == start + flag_pairs(flag@, texts(xs@).take(i as int)),
        decreases xs@.len() - i,
    {
        let ghost before = texts(args@);
        args.push(string_of(flag));
        args.push(xs[i].clone());
        assert(texts(args@) =~= before + seq![flag@, xs@[i as int]@]);
        assert(texts(xs@).take(i + 1).drop_last() =~= texts(xs@).take(i as int));
        assert(texts(args@) =~= start + flag_pairs(flag@, texts(xs@).take(i + 1)));
        i = i + 1;
    }
    assert(texts(xs@).take(i as int) =~= texts(xs@));
}

impl FfmpegCommand {
    /// The command-line arguments of this command.
    pub fn to_args(&self) -> (args: Vec<String>)
        ensures
            texts(args@) == args_spec(self@),
    {
        let mut args: Vec<String> = vec![string_of("-y")];
        let mut paths: Vec<String> = Vec::new();
        let mut i: usize = 0;
        while i < self.inputs.len()
            invariant
                i <= self.inputs@.len(),
                texts(paths@) == inputs_view(self.inputs@).take(i as int),
            decreases self.inputs@.len() - i,
        {
            let ghost before = texts(paths@);
            paths.push(self.inputs[i].path.clone());
            assert(texts(paths@) =~= before.push(self.inputs@[i as int]@));
            assert(inputs_view(self.inputs@).take(i + 1) =~= inputs_view(self.inputs@).take(i as int).push(self.inputs@[i as int]@));
            i = i + 1;
        }
        assert(inputs_view(self.inputs@).take(i as int) =~= inputs_view(self.inputs@));
        assert(texts(args@) =~= seq!["-y"@]);
        push_flag_pairs(&mut args, "-i", &paths);
        let ghost a1 = texts(args@);
        if let Some(fg) = &self.filter_graph {
            args.push(string_of("-filter_complex"));
            args.push(fg.clone());
            assert(texts(args@) =~= a1 + seq!["-filter_complex"@, fg@]);
        } else {
            assert(texts(args@) =~= a1 + Seq::<Seq<char>>::empty());
        }
        push_flag_pairs(&mut args, "-map", &self.map_args);
        let ghost a2 = texts(args@);
        let mut k: usize = 0;
        while k < self.output_args.len()
            invariant
                k <= self.output_args@.len(),
                texts(args@) == a2 + texts(self.output_args@).take(k as int),
            decreases self.output_args@.len() - k,
        {
            let ghost before = texts(args@);
            args.push(self.output_args[k].clone());
            assert(texts(args@) =~= before.push(self.output_args@[k as int]@));
            assert(texts(self.output_args@).take(k + 1) =~= texts(self.output_args@).take(k as int).push(
                self.output_args@[k as int]@,
            ));
            k = k + 1;
        }
        assert(texts(self.output_args@).take(k as int) =~= texts(self.output_args@));
        let ghost a3 = texts(args@);
        args.push(self.output_path.clone());
        assert(texts(args@) =~= a3.push(self.output_path@));
        assert(texts(args@) =~= args_spec(self@));
        args
    }

    /// The command line that runs this command, each argument quoted for a
    /// shell where it needs it.
    pub fn to_command_string(&self) -> (s: String)
        ensures
            s@ == command_line(args_spec(self@)),
    {
        let args = self.to_args();
        let ghost av = texts(args@);
        let mut s = string_of("ffmpeg");
        let mut i: usize = 0;
        assert(av.take(0) =~= Seq::<Seq<char>>::empty());
        while i < args.len()
            invariant
                i <= args@.len(),
                av == texts(args@),
                s@ == command_line(av.take(i as int)),
            decreases args@.len() - i,
        {
            push_str(&mut s, " ");
            push_shell_word(&mut s, args[i].as_str());
            assert(av.take(i + 1).drop_last() =~= av.take(i as int));
            assert(s@ =~= command_line(av.take(i + 1)));
            i = i + 1;
        }
        assert(av.take(i as int) =~= av);
        s
    }
}

/// Whether the shell reads `c` as itself.
fn shell_safe_exec(c: char) -> (b: bool)
    ensures
        b == shell_safe(c),
{
    ('a' <= c && c <= 'z') || ('A' <= c && c <= 'Z') || ('0' <= c && c <= '9') || c == '-' || c == '_' || c == '.'
        || c == '/' || c == ':' || c == '=' || c == ',' || c == '+' || c == '@' || c == '%'
}

/// Appends `a` to `out` as a shell word.
fn push_shell_word(out: &mut String, a: &str)
    ensures
        final(out)@ == old(out)@ + shell_word(a@),
{
    let v = chars_of(a);
    let mut safe = v.len() > 0;
    let mut i: usize = 0;
    while i < v.len()
        invariant
            i <= v@.len(),
            v@ == a@,
            safe == (v@.len() > 0 && forall|k: int| 0 <= k < i ==> #[trigger] shell_safe(v@[k])),
        decreases v@.len() - i,
    {
        if !shell_safe_exec(v[i]) {
            safe = false;
        }
        i = i + 1;
    }
    if safe {
        push_str(out, a);
    } else {
        push_str(out, "'");
        push_escaped(out, a);
        push_str(out, "'");
    }
    assert(final(out)@ =~= old(out)@ + shell_word(a@));
}

/// Whether the command for `ir` can be built: every clip of its video
/// tracks plays at a positive speed where one is set, and the labels of its
/// filter graph can be counted in a `usize`.
pub fn is_codegen_ready(ir: &IrProgram) -> (b: bool)
    ensures
        b == codegen_ready(ir@),
{
    let cats = categorize_tracks(ir);
    let ghost c = cats@;
    let n = cats.video_items.len();
    let mut weight: u128 = 0;
    let mut ok = true;
    let mut i: usize = 0;
    assert(c.video.take(0) =~= Seq::<IrItemView>::empty());
    while i < n
        invariant
            i <= n,
            n == cats.video_items@.len(),
            c == cats@,
            c.video.len() == n,
            weight == items_weight(c.video.take(i as int)),
            weight <= i * 4_294_967_297,
            ok == speeds_ok(c.video.take(i as int)),
        decreases n - i,
    {
        let it = cats.video_items[i];
        assert(c.video[i as int] == it@);
        assert(c.video.take(i + 1).drop_last() =~= c.video.take(i as int));
        assert(c.video.take(i + 1).last() == it@);
        let ghost before_ok = ok;
        let w: u128 = match it {
            IrTrackItem::Clip(x) => {
                if let Some(sp) = x.speed {
                    if sp.raw <= 0 {
                        ok = false;
                    }
                }
                match x.loop_count {
                    Some(k) => if k > 1 { k as u128 + 1 } else { 2 },
                    None => 2,
                }
            },
            _ => 1,
        };
        assert(w == item_weight(it@));
        assert(weight + w <= (i + 1) * 4_294_967_297) by (nonlinear_arith)
            requires
                weight <= i * 4_294_967_297,
                w <= 4_294_967_297,
        ;
        weight = weight + w;
        proof {
            let t0 = c.video.take(i as int);
            let t1 = c.video.take(i + 1);
            assert forall|k: int| 0 <= k < t0.len() implies #[trigger] t0[k] == t1[k] by {}
            if ok {
                assert forall|k: int| 0 <= k < t1.len() implies (#[trigger] t1[k] matches IrItemView::Clip(x) ==> speed_ok(x)) by {
                    if k < t0.len() {
                        assert(t0[k] == t1[k]);
                    }
                }
            } else if before_ok {
                assert(!(t1[i as int] matches IrItemView::Clip(x) ==> speed_ok(x)));
            } else {
                let k = choose|k: int| 0 <= k < t0.len() && !(#[trigger] t0[k] matches IrItemView::Clip(x) ==> speed_ok(x));
                assert(t1[k] == t0[k]);
            }
        }
        i = i + 1;
    }
    assert(c.video.take(i as int) =~= c.video);
    assert(weight <= 18_446_744_073_709_551_615 * 4_294_967_297) by (nonlinear_arith)
        requires
            weight <= i * 4_294_967_297,
            i <= 18_446_744_073_709_551_615,
    ;
    let budget: u128 = 100 * weight + 3 * (cats.pip_items.len() as u128) + 3 * (cats.image_overlays.len() as u128)
        + cats.subtitle_items.len() as u128 + cats.text_overlays.len() as u128 + 4 * (cats.audio_clips.len() as u128) + 4;
    ok && budget <= usize::MAX as u128
}

} // verus!
