//! The front end from source text to validated program: lexing, parsing
//! and analysis with rendered errors, the merging of included files, and
//! the stamping of probed audio streams onto clips.
use vstd::prelude::*;
use crate::ast::{Program, ProgramView};
use crate::error::{format_error, ErrView, VeacError};
use crate::ir::{IrClipView, IrItemView, IrProgram, IrProgramView, IrTimelineView, IrTrack, IrTrackItem, IrTrackKind, IrTrackView};
use crate::lexer::{lemma_token_spans, token_views, tokenize_spec, Lexer};
use crate::parser::{lemma_tokens_parseable, Parser};
use crate::parser_spec::parse_spec;
use crate::resolve_items::{ir_items_view, ir_tracks_view};
use crate::semantic::SemanticAnalyzer;
use crate::semantic_spec::analyze_spec;
use crate::split::{join_path, join_path_exec};
use crate::filter_graph::texts;
use crate::semantic::name_among;
use crate::text::{string_eq_str, string_of};

verus! {

/// A compilation error together with its rendering against the source.
#[derive(Debug)]
pub struct PipelineError {
    pub formatted: String,
    pub source_error: VeacError,
}

/// The program that a source text spells, or its first lexical or syntax
/// error.
pub open spec fn front_spec(source: Seq<char>) -> Result<ProgramView, ErrView> {
    match tokenize_spec(source) {
        Err(e) => Err(e),
        Ok(ts) => match parse_spec(ts, 0) {
            Ok((p, _)) => Ok(p),
            Err((e, _)) => Err(e),
        },
    }
}

/// A result whose error is rendered against `source` and `filename`.
pub open spec fn rendered<T>(r: Result<T, ErrView>, out: Result<T, PipelineError>, source: Seq<char>, filename: Seq<char>) -> bool {
    match r {
        Ok(v) => out == Ok::<T, PipelineError>(v),
        Err(e) => out matches Err(pe) && pe.source_error@ == e && pe.formatted@ == format_error(e, source, filename),
    }
}

/// The error with its rendering.
fn render(e: VeacError, source: &str, filename: &str) -> (pe: PipelineError)
    requires
        e.span matches Some(sp) ==> sp.start <= sp.end,
    ensures
        pe.source_error@ == e@,
        pe.formatted@ == format_error(e@, source@, filename@),
{
    let formatted = e.format(source, filename);
    PipelineError { formatted, source_error: e }
}

/// Lex and parse a source text; an error comes rendered against it.
#[verifier::rlimit(30)]
pub fn parse_source(source: &str, filename: &str) -> (r: Result<Program, PipelineError>)
    ensures
        match front_spec(source@) {
            Ok(p) => r matches Ok(x) && x@ == p,
            Err(e) => r matches Err(pe) && pe.source_error@ == e && pe.formatted@ == format_error(e, source@, filename@),
        },
{
    let mut lexer = Lexer::new(source);
    let n = lexer.chars.len();
    proof {
        lemma_token_spans(source@, 0);
    }
    let tokens = match lexer.tokenize() {
        Ok(t) => t,
        Err(e) => {
            return Err(render(e, source, filename));
        },
    };
    proof {
        lemma_tokens_parseable(source@);
    }
    let mut parser = Parser::new(tokens);
    match parser.parse() {
        Ok(p) => Ok(p),
        Err(e) => {
            proof {
                let ts = tokenize_spec(source@)->Ok_0;
                assert(ts[parser.pos as int].1 == crate::parser_spec::span_at(ts, parser.pos as int));
            }
            Err(render(e, source, filename))
        },
    }
}

/// Analyze a parsed program against the files under `base_dir`; an error
/// comes rendered against the source.
pub fn analyze_program(program: &Program, source: &str, filename: &str, base_dir: &str) -> (r: Result<IrProgram, PipelineError>)
    ensures
        match analyze_spec(base_dir@, program@) {
            Ok(p) => r matches Ok(x) && x@ == p,
            Err(e) => r matches Err(pe) && pe.source_error@ == e && pe.formatted@ == format_error(e, source@, filename@),
        },
{
    let analyzer = SemanticAnalyzer::new(base_dir);
    match analyzer.analyze(program) {
        Ok(ir) => Ok(ir),
        Err(e) => Err(render(e, source, filename)),
    }
}

/// The declarations of an included file merged into `program`: its
/// assets, variables and timelines follow those already there.
pub fn merge_included(program: &mut Program, included: Program)
    ensures
        final(program)@ == (ProgramView {
            assets: old(program)@.assets + included@.assets,
            variables: old(program)@.variables + included@.variables,
            timelines: old(program)@.timelines + included@.timelines,
            ..old(program)@
        }),
{
    let ghost before = program@;
    let ghost inc = included@;
    let mut included = included;
    program.assets.append(&mut included.assets);
    program.variables.append(&mut included.variables);
    program.timelines.append(&mut included.timelines);
    assert(program@.assets =~= before.assets + inc.assets);
    assert(program@.variables =~= before.variables + inc.variables);
    assert(program@.timelines =~= before.timelines + inc.timelines);
}

/// The path of an included file: relative to the directory `base_dir` of
/// the file that includes it, unless it is absolute.
pub fn include_path(base_dir: &str, path: &str) -> (p: String)
    ensures
        p@ == join_path(base_dir@, path@),
{
    join_path_exec(base_dir, path)
}

/// Whether an included file, known by its resolved path, is merged: the
/// first time it is met it is, and it is marked visited; a file met again
/// is skipped and the visited files stay as they were.
pub fn visit_include(visited: &mut Vec<String>, resolved: &str) -> (merge: bool)
    ensures
        merge == !texts(old(visited)@).contains(resolved@),
        texts(final(visited)@) == if merge {
            texts(old(visited)@).push(resolved@)
        } else {
            texts(old(visited)@)
        },
{
    let r = string_of(resolved);
    let n = visited.len();
    assert(visited@.take(n as int) =~= visited@);
    if name_among(visited, n, &r) {
        false
    } else {
        let ghost before = texts(visited@);
        visited.push(r);
        assert(texts(visited@) =~= before.push(resolved@));
        true
    }
}

/// The path at which an asset is probed: relative to `base_dir` unless it
/// is absolute.
pub fn probe_path(asset_path: &str, base_dir: &str) -> (p: String)
    ensures
        p@ == join_path(base_dir@, asset_path@),
{
    join_path_exec(base_dir, asset_path)
}

/// Whether the asset `name` has an audio stream, by the last probe of it.
pub open spec fn audio_of(audio: Seq<(Seq<char>, bool)>, name: Seq<char>) -> Option<bool>
    decreases audio.len(),
{
    if audio.len() == 0 {
        None
    } else if audio.last().0 == name {
        Some(audio.last().1)
    } else {
        audio_of(audio.drop_last(), name)
    }
}

/// A track item with the probed audio stamped on it when it is a clip of
/// a probed asset.
pub open spec fn stamp_item(it: IrItemView, audio: Seq<(Seq<char>, bool)>) -> IrItemView {
    match it {
        IrItemView::Clip(c) => match audio_of(audio, c.asset_name) {
            Some(h) => IrItemView::Clip(IrClipView { has_audio: h, ..c }),
            None => it,
        },
        _ => it,
    }
}

/// The items of a track, stamped.
pub open spec fn stamp_items(items: Seq<IrItemView>, audio: Seq<(Seq<char>, bool)>) -> Seq<IrItemView> {
    items.map_values(|it: IrItemView| stamp_item(it, audio))
}

/// The tracks of a timeline, stamped.
pub open spec fn stamp_tracks(tracks: Seq<IrTrackView>, audio: Seq<(Seq<char>, bool)>) -> Seq<IrTrackView> {
    tracks.map_values(|t: IrTrackView| (t.0, stamp_items(t.1, audio)))
}

/// The views of the probe results.
pub open spec fn probes_view(v: Seq<(String, bool)>) -> Seq<(Seq<char>, bool)> {
    v.map_values(|x: (String, bool)| (x.0@, x.1))
}

/// Whether the asset `name` has an audio stream, by the last probe of it.
fn audio_lookup(audio: &Vec<(String, bool)>, name: &String) -> (r: Option<bool>)
    ensures
        r == audio_of(probes_view(audio@), name@),
{
    let ghost av = probes_view(audio@);
    let mut i: usize = audio.len();
    assert(av.take(i as int) =~= av);
    while i > 0
        invariant
            i <= audio@.len(),
            av == probes_view(audio@),
            audio_of(av, name@) == audio_of(av.take(i as int), name@),
        decreases i,
    {
        assert(av.take(i as int).last() == av[i - 1]);
        assert(av.take(i as int).drop_last() =~= av.take(i - 1));
        if string_eq_str(&audio[i - 1].0, name.as_str()) {
            return Some(audio[i - 1].1);
        }
        i = i - 1;
    }
    None
}

/// The probe results stamped onto the clips: a clip of a probed asset gets
/// whether that asset has an audio stream; other clips keep theirs.
#[verifier::rlimit(30)]
pub fn stamp_audio(ir: &mut IrProgram, audio: &Vec<(String, bool)>)
    ensures
        final(ir)@ == (IrProgramView {
            timeline: (old(ir)@.timeline.0, stamp_tracks(old(ir)@.timeline.1, probes_view(audio@))),
            ..old(ir)@
        }),
{
    let ghost av = probes_view(audio@);
    let ghost t0 = old(ir)@.timeline.1;
    let mut t: usize = 0;
    while t < ir.timeline.tracks.len()
        invariant
            t <= ir.timeline.tracks@.len(),
            av == probes_view(audio@),
            ir.timeline.tracks@.len() == t0.len(),
            ir@.project == old(ir)@.project,
            ir@.assets == old(ir)@.assets,
            ir@.outputs == old(ir)@.outputs,
            ir@.timeline.0 == old(ir)@.timeline.0,
            forall|k: int| 0 <= k < t ==> #[trigger] ir.timeline.tracks@[k]@ == (t0[k].0, stamp_items(t0[k].1, av)),
            forall|k: int| t <= k < t0.len() ==> #[trigger] ir.timeline.tracks@[k]@ == t0[k],
        decreases t0.len() - t,
    {
        let ghost tv = t0[t as int];
        let mut track = IrTrack { kind: IrTrackKind::Video, items: Vec::new() };
        ir.timeline.tracks.set_and_swap(t, &mut track);
        assert(track@ == tv);
        let ghost iv = track.items@;
        assert(ir_items_view(iv) == tv.1);
        let n = track.items.len();
        let mut i: usize = 0;
        while i < n
            invariant
                i <= n,
                n == track.items@.len(),
                n == tv.1.len(),
                av == probes_view(audio@),
                track.kind == tv.0,
                forall|k: int| 0 <= k < i ==> #[trigger] track.items@[k]@ == stamp_item(tv.1[k], av),
                forall|k: int| i <= k < n ==> #[trigger] track.items@[k]@ == tv.1[k],
            decreases n - i,
        {
            let found = match &track.items[i] {
                IrTrackItem::Clip(c) => audio_lookup(audio, &c.asset_name),
                _ => None,
            };
            assert(track.items@[i as int]@ == tv.1[i as int]);
            if let Some(h) = found {
                if let IrTrackItem::Clip(c) = &mut track.items[i] {
                    c.has_audio = h;
                }
            }
            assert(track.items@[i as int]@ == stamp_item(tv.1[i as int], av));
            i = i + 1;
        }
        assert(track@.1 =~= stamp_items(tv.1, av));
        let ghost newt = track@;
        ir.timeline.tracks.set_and_swap(t, &mut track);
        assert(ir.timeline.tracks@[t as int]@ == newt);
        t = t + 1;
    }
    assert(ir@.timeline.1 =~= stamp_tracks(t0, av));
}

} // verus!
