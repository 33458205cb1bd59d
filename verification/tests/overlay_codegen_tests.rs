use veac::fixed::Fixed;
use veac::ir::{IrProject, OutputFormat, Codec, Quality, FitMode, IrClip, IrAssetKind, IrProgram, IrAsset, IrTimeline, IrTrack, IrTrackKind, IrTrackItem, IrImageOverlay};
use veac::ir_kinds::{Position};

fn fx(v: f64) -> Fixed {
    Fixed { raw: (v * 1_000_000_000.0).round() as i64 }
}

fn make_project() -> IrProject {
    IrProject {
        name: "test".into(),
        width: 1920,
        height: 1080,
        fps: 30,
        format: OutputFormat::Mp4,
        codec: Codec::H264,
        quality: Quality::Medium,
        fit: FitMode::Fill,
    }
}

fn make_clip(name: &str, path: &str) -> IrClip {
    IrClip {
        asset_name: name.into(),
        asset_path: String::from(path),
        asset_kind: IrAssetKind::Video,
        ..Default::default()
    }
}

#[test]
fn image_overlay_generates_overlay_filter() {
    let ir = IrProgram { outputs: vec![],
        project: make_project(),
        assets: vec![
            IrAsset { name: "intro".into(), kind: IrAssetKind::Video, path: String::from("intro.mp4") },
            IrAsset { name: "logo".into(), kind: IrAssetKind::Image, path: String::from("logo.png") },
        ],
        timeline: IrTimeline {
            name: "main".into(),
            tracks: vec![
                IrTrack {
                    kind: IrTrackKind::Video,
                    items: vec![IrTrackItem::Clip(make_clip("intro", "intro.mp4"))],
                },
                IrTrack {
                    kind: IrTrackKind::Overlay,
                    items: vec![IrTrackItem::ImageOverlay(IrImageOverlay {
                        asset_name: "logo".into(),
                        asset_path: String::from("logo.png"),
                        at_sec: fx(0.0),
                        duration_sec: fx(30.0),
                        position: Position::TopRight,
                        scale: Some(fx(0.1)),
                        opacity: Some(fx(0.8)),
                    })],
                },
            ],
        },
    };

    let cmd = veac::ffmpeg::generate(&ir, "out.mp4");
    let fg = cmd.filter_graph.expect("should have filter_complex");

    // Should have scale for the image
    assert!(fg.contains("scale=iw*0.1:ih*0.1"));
    // Should have opacity adjustment
    assert!(fg.contains("colorchannelmixer=aa=0.8"));
    // Should have overlay filter with position
    assert!(fg.contains("overlay="));
    assert!(fg.contains("enable='between(t,0,30)'"));
    // Should have 2 inputs
    assert_eq!(cmd.inputs.len(), 2);
}

#[test]
fn image_overlay_without_scale_or_opacity() {
    let ir = IrProgram { outputs: vec![],
        project: make_project(),
        assets: vec![
            IrAsset { name: "intro".into(), kind: IrAssetKind::Video, path: String::from("intro.mp4") },
            IrAsset { name: "watermark".into(), kind: IrAssetKind::Image, path: String::from("wm.png") },
        ],
        timeline: IrTimeline {
            name: "main".into(),
            tracks: vec![
                IrTrack {
                    kind: IrTrackKind::Video,
                    items: vec![IrTrackItem::Clip(make_clip("intro", "intro.mp4"))],
                },
                IrTrack {
                    kind: IrTrackKind::Overlay,
                    items: vec![IrTrackItem::ImageOverlay(IrImageOverlay {
                        asset_name: "watermark".into(),
                        asset_path: String::from("wm.png"),
                        at_sec: fx(5.0),
                        duration_sec: fx(10.0),
                        position: Position::BottomRight,
                        scale: None,
                        opacity: None,
                    })],
                },
            ],
        },
    };

    let cmd = veac::ffmpeg::generate(&ir, "out.mp4");
    let fg = cmd.filter_graph.expect("should have filter_complex");

    // No image-specific scale (iw*) or opacity filters
    assert!(!fg.contains("scale=iw*"));
    assert!(!fg.contains("colorchannelmixer"));
    // But should still have overlay
    assert!(fg.contains("overlay="));
    assert!(fg.contains("enable='between(t,5,15)'"));
}
