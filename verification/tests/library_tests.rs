use veac::ast::Program;
use veac::batch::{batch_output_path, batch_source};
use veac::error::ErrorKind;
use veac::ffmpeg::{build_output_args, generate, generate_all};
use veac::filter_graph::FilterGraph;
use veac::fixed::Fixed;
use veac::ir::{
    Codec, FitMode, IrAsset, IrAssetKind, IrClip, IrGap, IrOutputConfig, IrProgram, IrProject, IrTextOverlay,
    IrTimeline, IrTrack, IrTrackItem, IrTrackKind, IrTransition, OutputFormat, Quality,
};
use veac::ir_kinds::{Position, TransitionKind};
use veac::lexer::Lexer;
use veac::parser::Parser;
use veac::pipeline::{analyze_program, merge_included, parse_source, probe_path, stamp_audio};
use veac::progress::extract_value;
use veac::semantic::SemanticAnalyzer;
use veac::text::u128_text;
use veac::token::TokenKind;

fn fx(v: f64) -> Fixed {
    Fixed { raw: (v * 1_000_000_000.0).round() as i64 }
}

fn project(width: u32, height: u32, fps: u32, codec: Codec, quality: Quality) -> IrProject {
    IrProject {
        name: "test".into(),
        width,
        height,
        fps,
        format: OutputFormat::Mp4,
        codec,
        quality,
        fit: FitMode::Fill,
    }
}

fn clip(name: &str, from: Option<f64>, to: Option<f64>) -> IrClip {
    IrClip {
        asset_name: name.into(),
        asset_path: format!("{name}.mp4"),
        asset_kind: IrAssetKind::Video,
        from_sec: from.map(fx),
        to_sec: to.map(fx),
        ..Default::default()
    }
}

fn program(tracks: Vec<IrTrack>, outputs: Vec<IrOutputConfig>) -> IrProgram {
    IrProgram {
        project: project(1920, 1080, 30, Codec::H264, Quality::Medium),
        assets: vec![],
        timeline: IrTimeline { name: "main".into(), tracks },
        outputs,
    }
}

fn video(items: Vec<IrTrackItem>) -> IrTrack {
    IrTrack { kind: IrTrackKind::Video, items }
}

fn front(src: &str) -> Program {
    let mut lexer = Lexer::new(src);
    let tokens = lexer.tokenize().unwrap();
    Parser::new(tokens).parse().unwrap()
}

fn analyze_at(base: &str, src: &str) -> Result<IrProgram, veac::error::VeacError> {
    SemanticAnalyzer::new(base).analyze(&front(src))
}

fn analyze(src: &str) -> Result<IrProgram, veac::error::VeacError> {
    analyze_at(".", src)
}

const HEAD: &str = "project \"t\" { resolution = \"1920x1080\" fps = 30 }\nasset a = video(\"a.mp4\")\n";

// --- Lexing ---

#[test]
fn tokenize_ends_with_one_eof() {
    let mut lexer = Lexer::new("asset a = video(\"x\") // done");
    let tokens = lexer.tokenize().unwrap();
    assert_eq!(tokens.last().unwrap().kind, TokenKind::Eof);
    assert_eq!(tokens.iter().filter(|t| t.kind == TokenKind::Eof).count(), 1);
}

#[test]
fn lexer_error_kinds() {
    assert_eq!(Lexer::new("@").tokenize().unwrap_err().kind, ErrorKind::UnexpectedChar);
    assert_eq!(Lexer::new("99999999999999999999").tokenize().unwrap_err().kind, ErrorKind::InvalidNumber);
    let e = Lexer::new("#FFF").tokenize().unwrap_err();
    assert_eq!(e.kind, ErrorKind::InvalidColor);
    assert_eq!(e.message, "invalid color literal `#FFF`, expected 6 or 8 hex digits");
}

#[test]
fn negative_numbers_and_spans() {
    let mut lexer = Lexer::new("x = -2.5s");
    let tokens = lexer.tokenize().unwrap();
    assert_eq!(tokens[2].kind, TokenKind::TimeSec(Fixed { raw: -2_500_000_000 }));
    assert_eq!(tokens[2].span.start, 4);
    assert_eq!(tokens[2].span.col, 5);
}

// --- Parsing ---

#[test]
fn parser_error_messages() {
    let e = Parser::new(Lexer::new("asset = video(\"x\")").tokenize().unwrap()).parse().unwrap_err();
    assert_eq!(e.kind, ErrorKind::ExpectedToken);
    assert_eq!(e.message, "expected identifier, found =");
    let e = Parser::new(Lexer::new("let x = {").tokenize().unwrap()).parse().unwrap_err();
    assert_eq!(e.kind, ErrorKind::ExpectedExpression);
    assert_eq!(e.message, "expected expression, found {");
    let e = Parser::new(Lexer::new("timeline main { track foo {} }").tokenize().unwrap()).parse().unwrap_err();
    assert_eq!(e.kind, ErrorKind::ExpectedToken);
    assert_eq!(e.hint.as_deref(), Some("track type must be `video`, `audio`, `text`, or `overlay`"));
    let e = Parser::new(Lexer::new("project \"a\" {}\nproject \"b\" {}").tokenize().unwrap()).parse().unwrap_err();
    assert_eq!(e.kind, ErrorKind::DuplicateDefinition);
    assert_eq!(e.message, "duplicate `project` declaration");
    assert_eq!(e.span.unwrap().line, 2);
}

#[test]
fn format_renders_rustc_style() {
    let src = "project \"x\" {\n  fps = @\n}";
    let e = parse_source(src, "main.veac").unwrap_err();
    assert_eq!(e.source_error.kind, ErrorKind::UnexpectedChar);
    assert_eq!(
        e.formatted,
        "error[UnexpectedChar]: unexpected character `@`\n  --> main.veac:2:9\n  |\n2 |   fps = @\n  |         ^\n"
    );
}

// --- Semantic analysis ---

#[test]
fn semantic_error_kinds() {
    let e = analyze(&format!("{HEAD}timeline main {{ track video {{ clip a {{ volume = nope }} }} }}")).unwrap_err();
    assert_eq!(e.kind, ErrorKind::UndefinedVariable);
    assert_eq!(e.message, "undefined variable `nope`");
    assert_eq!(e.hint.as_deref(), Some("define it with `let nope = ...`"));
    let e = analyze(&format!("{HEAD}let v = 1\nlet v = 2\ntimeline main {{ }}")).unwrap_err();
    assert_eq!(e.kind, ErrorKind::DuplicateDefinition);
    assert_eq!(e.message, "variable `v` is already defined");
    let e = analyze(&format!("{HEAD}asset a = audio(\"b.mp3\")\ntimeline main {{ }}")).unwrap_err();
    assert_eq!(e.message, "duplicate asset name `a`");
    let e = analyze("project \"t\" { fps = \"thirty\" }\ntimeline main { }").unwrap_err();
    assert_eq!(e.kind, ErrorKind::TypeMismatch);
    assert_eq!(e.message, "`fps` expects an integer");
    let e = analyze("project \"t\" { }").unwrap_err();
    assert_eq!(e.kind, ErrorKind::NoTimeline);
    assert_eq!(e.message, "no `timeline` declaration found");
    let e = analyze("project \"t\" { resolution = \"1920by1080\" }\ntimeline main { }").unwrap_err();
    assert_eq!(e.message, "invalid resolution `1920by1080`, expected `WIDTHxHEIGHT`");
    let e = analyze("project \"t\" { resolution = \"1920x-5\" }\ntimeline main { }").unwrap_err();
    assert_eq!(e.message, "invalid height in `1920x-5`");
    let e = analyze("project \"t\" { fit = \"stretch\" }\ntimeline main { }").unwrap_err();
    assert_eq!(e.message, "unknown fit mode `stretch`");
    assert_eq!(e.hint.as_deref(), Some("supported: fill, letterbox, crop"));
}

#[test]
fn clip_range_messages() {
    let e = analyze(&format!("{HEAD}timeline main {{ track video {{ clip a {{ zoom = 0.5 }} }} }}")).unwrap_err();
    assert_eq!(e.message, "clip `a`: zoom 0.5 is out of range, must be 1 to 10");
    let e = analyze(&format!("{HEAD}timeline main {{ track video {{ clip a {{ speed = 0 }} }} }}")).unwrap_err();
    assert_eq!(e.message, "clip `a`: speed 0 is out of range, must be > 0.0 and <= 100.0");
    let e = analyze(&format!("{HEAD}timeline main {{ track video {{ clip a {{ sharpen = -1 }} }} }}")).unwrap_err();
    assert_eq!(e.message, "clip `a`: sharpen must be > 0, got -1");
    let e = analyze(&format!("{HEAD}timeline main {{ track video {{ clip a {{ from = 10s to = 5s }} }} }}")).unwrap_err();
    assert_eq!(e.message, "clip `a`: `from` (10s) must be less than `to` (5s)");
}

#[test]
fn time_values_convert_exactly() {
    let ir = analyze(&format!(
        "{HEAD}timeline main {{ track video {{ clip a {{ from = \"00:00:01:15\" to = 2000ms duration = 3 }} }} }}"
    ))
    .unwrap();
    if let IrTrackItem::Clip(c) = &ir.timeline.tracks[0].items[0] {
        assert_eq!(c.from_sec, Some(Fixed { raw: 1_500_000_000 }));
        assert_eq!(c.to_sec, Some(Fixed { raw: 2_000_000_000 }));
        assert_eq!(c.duration_sec, Some(Fixed { raw: 3_000_000_000 }));
    } else {
        panic!("expected clip");
    }
    let e = SemanticAnalyzer::parse_smpte("1:2", 30).unwrap_err();
    assert_eq!(e.kind, ErrorKind::InvalidTimeLiteral);
    assert_eq!(e.message, "invalid SMPTE timecode `1:2`");
}

#[test]
fn frames_at_zero_fps_lie_past_every_time() {
    let ir = analyze("project \"t\" { fps = 0 }\nasset a = video(\"a.mp4\")\ntimeline main { track video { clip a { from = 0f to = 90f } clip a { from = \"00:00:02:00\" to = \"00:00:02:05\" } } }")
        .unwrap();
    match (&ir.timeline.tracks[0].items[0], &ir.timeline.tracks[0].items[1]) {
        (IrTrackItem::Clip(a), IrTrackItem::Clip(b)) => {
            assert_eq!(a.from_sec, Some(Fixed { raw: 0 }));
            assert_eq!(a.to_sec, Some(Fixed { raw: i64::MAX }));
            assert_eq!(b.from_sec, Some(Fixed { raw: 2_000_000_000 }));
            assert_eq!(b.to_sec, Some(Fixed { raw: i64::MAX }));
        }
        _ => panic!("expected clips"),
    }
}

#[test]
fn variables_stand_for_their_values() {
    let with_var = analyze(&format!("{HEAD}let v = 0.25\ntimeline main {{ track video {{ clip a {{ volume = v }} }} }}")).unwrap();
    let inline = analyze(&format!("{HEAD}timeline main {{ track video {{ clip a {{ volume = 0.25 }} }} }}")).unwrap();
    match (&with_var.timeline.tracks[0].items[0], &inline.timeline.tracks[0].items[0]) {
        (IrTrackItem::Clip(a), IrTrackItem::Clip(b)) => {
            assert_eq!(a.volume, b.volume);
            assert_eq!(a.volume, Some(fx(0.25)));
        }
        _ => panic!("expected clips"),
    }
}

#[test]
fn asset_paths_join_the_base_directory() {
    let src = "project \"t\" { }\nasset a = video(\"a.mp4\")\nasset b = video(\"/abs/b.mp4\")\ntimeline main { }";
    let ir = analyze_at("/tmp", src).unwrap();
    assert_eq!(ir.assets[0].path, "/tmp/a.mp4");
    assert_eq!(ir.assets[1].path, "/abs/b.mp4");
    assert_eq!(analyze_at("", src).unwrap().assets[0].path, "a.mp4");
    assert_eq!(analyze_at("dir/", src).unwrap().assets[0].path, "dir/a.mp4");
}

#[test]
fn analyzed_clips_read_declared_assets() {
    let ir = analyze(&format!("{HEAD}timeline main {{ track video {{ clip a {{ speed = 2 }} gap {{ }} freeze a {{ }} pip a {{ }} }} }}")).unwrap();
    let items = &ir.timeline.tracks[0].items;
    assert_eq!(items.len(), 4);
    match &items[0] {
        IrTrackItem::Clip(c) => {
            assert_eq!(c.asset_path, "./a.mp4");
            assert_eq!(c.speed, Some(fx(2.0)));
        }
        _ => panic!("expected clip"),
    }
    match &items[1] {
        IrTrackItem::Gap(g) => assert_eq!(g.duration_sec, fx(1.0)),
        _ => panic!("expected gap"),
    }
    match &items[3] {
        IrTrackItem::Pip(p) => {
            assert_eq!(p.scale, fx(0.25));
            assert_eq!(p.position, Position::BottomRight);
            assert_eq!(p.duration_sec, fx(5.0));
        }
        _ => panic!("expected pip"),
    }
    let cmd = generate(&ir, "out.mp4");
    assert_eq!(cmd.inputs.len(), 1);
}

#[test]
fn analyze_program_renders_errors() {
    let src = "project \"t\" { }";
    let e = analyze_program(&front(src), src, "main.veac", ".").unwrap_err();
    assert_eq!(e.formatted, "error[NoTimeline]: no `timeline` declaration found\n  = help: add a `timeline main { ... }` block\n");
}

#[test]
fn included_declarations_follow() {
    let mut main = front("project \"t\" { }\nasset a = video(\"a.mp4\")");
    let included = front("asset b = video(\"b.mp4\")\nlet x = 1\ntimeline main { }");
    merge_included(&mut main, included);
    assert_eq!(main.assets.len(), 2);
    assert_eq!(main.assets[1].name, "b");
    assert_eq!(main.variables.len(), 1);
    assert_eq!(main.timelines.len(), 1);
    assert!(main.project.is_some());
}

// --- Filter graph ---

#[test]
fn next_label_counts_up() {
    let mut g = FilterGraph::new();
    assert_eq!(g.next_label("s"), "s0");
    assert_eq!(g.next_label("s"), "s1");
    assert_eq!(g.next_label("tv"), "tv2");
    assert!(g.is_empty());
}

#[test]
fn render_joins_filters_with_semicolons() {
    let mut g = FilterGraph::new();
    assert_eq!(g.add_trim("0:v", Some(fx(1.0)), None), "tv0");
    assert_eq!(g.add_volume("0:a", fx(0.5)), "vol1");
    assert_eq!(g.render(), "[0:v]trim=start=1,setpts=PTS-STARTPTS[tv0];[0:a]volume=0.5[vol1]");
}

#[test]
fn effect_formulas_exact() {
    let mut g = FilterGraph::new();
    g.add_blur("a", fx(200.0));
    g.add_blur("a", fx(1.0));
    g.add_grain("a", fx(0.29));
    g.add_vignette("a", fx(0.5));
    g.add_rotate("a", fx(90.0));
    g.add_crop("a", "640x480");
    let r = g.render();
    assert!(r.contains("[a]boxblur=20:20[bl0]"));
    assert!(r.contains("[a]boxblur=1:1[bl1]"));
    assert!(r.contains("noise=alls=29:allf=t"));
    assert!(r.contains("vignette=angle=1.099557428"));
    assert!(r.contains("rotate=1.570796326:fillcolor=black@0:ow=rotw(1.570796326):oh=roth(1.570796326)"));
    assert!(r.contains("crop=640x480:0:0"));
}

#[test]
fn atempo_chains_outside_its_range() {
    let mut g = FilterGraph::new();
    assert_eq!(g.add_atempo("0:a", fx(0.25)), "at1");
    assert_eq!(g.render(), "[0:a]atempo=0.5[at0];[at0]atempo=0.5[at1]");
    let mut g = FilterGraph::new();
    g.add_atempo("0:a", fx(250.0));
    assert_eq!(g.render(), "[0:a]atempo=100.0[at0];[at0]atempo=2.5[at1]");
}

#[test]
fn chromakey_hex_takes_a_second_label() {
    let mut g = FilterGraph::new();
    assert_eq!(g.add_chromakey("0:v", "#00FF00"), "ck1");
    assert_eq!(g.render(), "[0:v]chromakey=0x00FF00:0.1:0.2[ck1]");
    let mut g = FilterGraph::new();
    assert_eq!(g.add_chromakey("0:v", "purple"), "ck0");
    assert_eq!(g.render(), "[0:v]chromakey=0x00FF00:0.1:0.2[ck0]");
}

#[test]
fn zoompan_expression_exact() {
    let mut g = FilterGraph::new();
    g.add_zoompan("v", fx(2.0), fx(10.0), 1920, 1080, 30, None, Some(fx(-0.5)));
    assert_eq!(
        g.render(),
        "[v]zoompan=z='if(lt(on\\,90)\\,1+on/90*1\\,if(lt(on\\,210)\\,2\\,2-(on-210)/90*1))':x='iw/2-(iw/zoom/2)':y='ih/2-(ih/zoom/2)+ih*-0.5*(1-1/zoom)/2':d=1:s=1920x1080:fps=30[zp0]"
    );
}

#[test]
fn drawtext_escapes_quotes() {
    let mut g = FilterGraph::new();
    g.add_drawtext("0:v", "it's", "Arial", 24, "FFFFFF", "10", "10", fx(0.0), fx(5.0));
    assert_eq!(
        g.render(),
        "[0:v]drawtext=text='it'\\''s':fontfile=Arial:fontsize=24:fontcolor=FFFFFF:x=10:y=10:enable='between(t,0,5)'[txt0]"
    );
}

// --- Commands ---

#[test]
fn output_args_exact() {
    let args = build_output_args(&project(1280, 720, 25, Codec::H265, Quality::Low));
    assert_eq!(args, vec!["-c:v", "libx265", "-preset", "ultrafast", "-crf", "28", "-s", "1280x720", "-r", "25", "-c:a", "aac"]);
}

#[test]
fn single_clip_command_exact() {
    let ir = program(vec![video(vec![IrTrackItem::Clip(clip("a", None, None))])], vec![]);
    let cmd = generate(&ir, "out.mp4");
    let fg = "[0:v]trim,setpts=PTS-STARTPTS[tv0];[tv0]scale=1920:1080[sc1];[0:a]atrim,asetpts=PTS-STARTPTS[ta2]";
    assert_eq!(cmd.filter_graph.as_deref(), Some(fg));
    assert_eq!(
        cmd.to_args(),
        vec![
            "-y", "-i", "a.mp4", "-filter_complex", fg, "-map", "[sc1]", "-map", "[ta2]", "-c:v", "libx264", "-preset",
            "medium", "-crf", "23", "-s", "1920x1080", "-r", "30", "-c:a", "aac", "out.mp4",
        ]
    );
    assert_eq!(
        cmd.to_command_string(),
        format!("ffmpeg -y -i a.mp4 -filter_complex '{fg}' -map '[sc1]' -map '[ta2]' -c:v libx264 -preset medium -crf 23 -s 1920x1080 -r 30 -c:a aac out.mp4")
    );
}

#[test]
fn same_asset_is_one_input() {
    let ir = program(
        vec![video(vec![IrTrackItem::Clip(clip("a", None, None)), IrTrackItem::Clip(clip("a", None, None))])],
        vec![],
    );
    let cmd = generate(&ir, "out.mp4");
    assert_eq!(cmd.inputs.len(), 1);
    assert!(cmd.filter_graph.unwrap().contains("concat=n=2:v=1:a=1"));
}

#[test]
fn no_video_items_no_graph() {
    let ir = program(vec![IrTrack { kind: IrTrackKind::Audio, items: vec![IrTrackItem::Clip(clip("m", None, None))] }], vec![]);
    let cmd = generate(&ir, "out.mp4");
    assert_eq!(cmd.filter_graph, None);
    assert!(cmd.map_args.is_empty());
    assert_eq!(cmd.inputs.len(), 1);
}

#[test]
fn transition_before_first_clip_drops_that_clip() {
    let t = IrTransition { kind: TransitionKind::Fade, duration_sec: fx(1.0) };
    let ir = program(
        vec![video(vec![
            IrTrackItem::Transition(t),
            IrTrackItem::Clip(clip("a", None, None)),
            IrTrackItem::Clip(clip("b", None, None)),
        ])],
        vec![],
    );
    let fg = generate(&ir, "out.mp4").filter_graph.unwrap();
    assert!(!fg.contains("xfade"));
    assert!(!fg.contains("concat"));
    assert_eq!(generate(&ir, "out.mp4").map_args, vec!["[sc4]", "[ta5]"]);
}

#[test]
fn transition_offset_counts_gaps() {
    let t = IrTransition { kind: TransitionKind::Fade, duration_sec: fx(1.0) };
    let ir = program(
        vec![video(vec![
            IrTrackItem::Clip(clip("a", Some(0.0), Some(10.0))),
            IrTrackItem::Gap(IrGap { duration_sec: fx(2.0) }),
            IrTrackItem::Transition(t),
            IrTrackItem::Clip(clip("b", Some(0.0), Some(5.0))),
        ])],
        vec![],
    );
    let fg = generate(&ir, "out.mp4").filter_graph.unwrap();
    assert!(fg.contains("[clr3][sc6]xfade=transition=fade:duration=1:offset=11[xf8]"));
    assert!(fg.contains("[sil4][ta7]acrossfade=d=1:c1=tri:c2=tri[axf9]"));
    assert!(fg.contains("[sc1][ta2][xf8][axf9]concat=n=2:v=1:a=1[outv10][outa11]"));
}

#[test]
fn text_fades_use_alpha() {
    let text = IrTextOverlay {
        content: "Hi".into(),
        at_sec: fx(2.0),
        duration_sec: fx(4.0),
        font: "Arial".into(),
        size: 24,
        color: "FFFFFF".into(),
        position: Position::Top,
        fade_in_sec: Some(fx(1.0)),
        fade_out_sec: Some(fx(1.0)),
    };
    let ir = program(
        vec![
            video(vec![IrTrackItem::Clip(clip("a", None, None))]),
            IrTrack { kind: IrTrackKind::Text, items: vec![IrTrackItem::TextOverlay(text)] },
        ],
        vec![],
    );
    let fg = generate(&ir, "out.mp4").filter_graph.unwrap();
    assert!(fg.contains(":x=(w-text_w)/2:y=10:enable='between(t,2,6)':alpha='if(lt(t\\,3)\\,(t-2)/1\\,if(gt(t\\,5)\\,(6-t)/1\\,1))'"));
}

#[test]
fn generate_all_one_command_per_output() {
    let out = |path: &str, quality: Option<Quality>| IrOutputConfig {
        path: path.into(),
        width: None,
        height: None,
        format: None,
        codec: Some(Codec::Vp9),
        quality,
    };
    let ir = program(
        vec![video(vec![IrTrackItem::Clip(clip("a", None, None))])],
        vec![out("x.webm", Some(Quality::Lossless)), out("y.webm", None)],
    );
    let cmds = generate_all(&ir, "default.mp4");
    assert_eq!(cmds.len(), 2);
    assert_eq!(cmds[0].output_path, "x.webm");
    assert!(cmds[0].output_args.contains(&"veryslow".to_string()));
    assert!(cmds[1].output_args.contains(&"medium".to_string()));
    assert!(cmds[1].output_args.contains(&"libvpx-vp9".to_string()));
}

// --- Runtime and batch helpers ---

#[test]
fn progress_values_extracted() {
    let line = "frame=  100 fps=30.0 q=28.0 size=    1024kB time=00:00:03.33 bitrate=2517.1kbits/s speed=1.00x";
    assert_eq!(extract_value(line, "frame=").as_deref(), Some("  100"));
    assert_eq!(extract_value(line, "size=").as_deref(), Some("    1024kB"));
    assert_eq!(extract_value(line, "time=").as_deref(), Some("00:00:03.33"));
    assert_eq!(extract_value("a=1x b=2", "a=").as_deref(), Some("1x"));
    assert_eq!(extract_value("a=1xb=2", "a=").as_deref(), Some("1"));
    assert_eq!(extract_value(line, "speed=").as_deref(), Some("1.00x"));
    assert_eq!(extract_value(line, "nothing="), None);
}

#[test]
fn batch_rows_become_sources() {
    let headers = vec!["title".to_string(), "color".to_string()];
    let row = vec!["Hello".to_string()];
    assert_eq!(batch_source(&headers, &row, "timeline main { }"), "let title = \"Hello\"\ntimeline main { }");
    assert_eq!(batch_output_path("out", 3), "out/row_3.mp4");
    assert_eq!(batch_output_path("out/", 12), "out/row_12.mp4");
}

#[test]
fn probed_audio_is_stamped() {
    let mut ir = program(
        vec![video(vec![IrTrackItem::Clip(clip("a", None, None)), IrTrackItem::Clip(clip("b", None, None))])],
        vec![],
    );
    ir.assets = vec![IrAsset { name: "a".into(), kind: IrAssetKind::Video, path: "a.mp4".into() }];
    stamp_audio(&mut ir, &vec![("a".to_string(), false)]);
    match (&ir.timeline.tracks[0].items[0], &ir.timeline.tracks[0].items[1]) {
        (IrTrackItem::Clip(a), IrTrackItem::Clip(b)) => {
            assert!(!a.has_audio);
            assert!(b.has_audio);
        }
        _ => panic!("expected clips"),
    }
    let fg = generate(&ir, "out.mp4").filter_graph.unwrap();
    assert!(fg.contains("aevalsrc=0:s=44100:d=10"));
    assert_eq!(probe_path("a.mp4", "/media"), "/media/a.mp4");
    assert_eq!(probe_path("/x/a.mp4", "/media"), "/x/a.mp4");
}

// --- Values ---

#[test]
fn fixed_text_is_shortest_decimal() {
    assert_eq!(Fixed { raw: -250_000_000 }.text(), "-0.25");
    assert_eq!(Fixed { raw: 3_000_000_000 }.text(), "3");
    assert_eq!(Fixed { raw: 1 }.text(), "0.000000001");
    assert_eq!(u128_text(1234567), "1234567");
}

#[test]
fn names_of_kinds() {
    assert_eq!(TransitionKind::from_str("zoom-in"), Some(TransitionKind::ZoomIn));
    assert_eq!(TransitionKind::from_str("wipe"), None);
    assert_eq!(TransitionKind::CircleCrop.to_ffmpeg(), "circlecrop");
    assert_eq!(Position::BottomLeft.to_overlay_xy(), ("10", "H-h-10"));
    assert_eq!(Position::Right.to_ffmpeg_xy(), ("w-text_w-10", "(h-text_h)/2"));
    assert_eq!(OutputFormat::Webm.extension(), "webm");
    assert_eq!(Codec::Av1.ffmpeg_encoder(), "libaom-av1");
    assert_eq!(Quality::High.ffmpeg_preset(), "slow");
    assert_eq!(Quality::High.ffmpeg_crf(), 18);
}

#[test]
fn transition_names_round_trip() {
    let all = [
        TransitionKind::Fade,
        TransitionKind::FadeBlack,
        TransitionKind::FadeWhite,
        TransitionKind::Dissolve,
        TransitionKind::WipeLeft,
        TransitionKind::WipeRight,
        TransitionKind::WipeUp,
        TransitionKind::WipeDown,
        TransitionKind::SlideLeft,
        TransitionKind::SlideRight,
        TransitionKind::SlideUp,
        TransitionKind::SlideDown,
        TransitionKind::ZoomIn,
        TransitionKind::SmoothLeft,
        TransitionKind::SmoothRight,
        TransitionKind::SmoothUp,
        TransitionKind::SmoothDown,
        TransitionKind::SqueezeH,
        TransitionKind::SqueezeV,
        TransitionKind::CircleCrop,
        TransitionKind::Pixelize,
    ];
    for k in all {
        assert_eq!(TransitionKind::from_str(k.to_ffmpeg()), Some(k));
    }
}

#[test]
fn graph_labels_never_repeat() {
    let mut g = FilterGraph::new();
    let mut seen = Vec::new();
    for prefix in ["s", "sc", "s", "tv", "sc"] {
        let l = g.next_label(prefix);
        assert!(!seen.contains(&l));
        seen.push(l);
    }
}

#[test]
fn codegen_readiness_checks_speeds() {
    let ok = program(vec![video(vec![IrTrackItem::Clip(clip("a", None, None))])], vec![]);
    assert!(veac::ffmpeg::is_codegen_ready(&ok));
    let mut stopped = clip("a", None, None);
    stopped.speed = Some(Fixed { raw: 0 });
    let bad = program(vec![video(vec![IrTrackItem::Clip(stopped)])], vec![]);
    assert!(!veac::ffmpeg::is_codegen_ready(&bad));
    let mut audio_only = clip("a", None, None);
    audio_only.speed = Some(Fixed { raw: -1 });
    let audio = program(vec![IrTrack { kind: IrTrackKind::Audio, items: vec![IrTrackItem::Clip(audio_only)] }], vec![]);
    assert!(veac::ffmpeg::is_codegen_ready(&audio));
}

#[test]
fn labels_with_digit_prefixes_stay_distinct() {
    let mut g = FilterGraph::new();
    let first = g.next_label("x1");
    let second = g.next_label("x1");
    assert_eq!(first, "x10");
    assert_eq!(second, "x11");
    assert_ne!(first, second);
}

#[test]
fn smpte_fields_read_as_numbers() {
    assert_eq!(SemanticAnalyzer::parse_smpte("00:00:01.5:15", 30).unwrap(), Fixed { raw: 2_000_000_000 });
    assert_eq!(SemanticAnalyzer::parse_smpte("00:-01:00:00", 30).unwrap(), Fixed { raw: -60_000_000_000 });
    assert_eq!(SemanticAnalyzer::parse_smpte("+01:00:00:00", 25).unwrap(), Fixed { raw: 3_600_000_000_000 });
    assert_eq!(SemanticAnalyzer::parse_smpte("00:00:ab:15", 30).unwrap(), Fixed { raw: 500_000_000 });
    assert_eq!(SemanticAnalyzer::parse_smpte("00:00:01:10", 3).unwrap(), Fixed { raw: 4_333_333_333 });
    assert_eq!(SemanticAnalyzer::parse_smpte("00:00:01:15", 0).unwrap(), Fixed { raw: i64::MAX });
    assert_eq!(SemanticAnalyzer::parse_smpte("00:00:01:-3", 0).unwrap(), Fixed { raw: i64::MIN });
    assert_eq!(SemanticAnalyzer::parse_smpte("00:00:07:00", 0).unwrap(), Fixed { raw: 7_000_000_000 });
}

#[test]
fn huge_time_literals_saturate() {
    let mut lexer = Lexer::new("99999999999s 1.0000000005s 12345678901.5");
    let tokens = lexer.tokenize().unwrap();
    assert_eq!(tokens[0].kind, TokenKind::TimeSec(Fixed { raw: i64::MAX }));
    assert_eq!(tokens[1].kind, TokenKind::TimeSec(Fixed { raw: 1_000_000_000 }));
    assert_eq!(tokens[2].kind, TokenKind::FloatLit(Fixed { raw: i64::MAX }));
}

#[test]
fn includes_are_merged_once() {
    let mut visited = Vec::new();
    assert!(veac::pipeline::visit_include(&mut visited, "/p/intro.veac"));
    assert!(veac::pipeline::visit_include(&mut visited, "/p/outro.veac"));
    assert!(!veac::pipeline::visit_include(&mut visited, "/p/intro.veac"));
    assert_eq!(visited, vec!["/p/intro.veac".to_string(), "/p/outro.veac".to_string()]);
    assert_eq!(veac::pipeline::include_path("/p", "./a.veac"), "/p/./a.veac");
    assert_eq!(veac::pipeline::include_path("/p", "/abs/a.veac"), "/abs/a.veac");
}
