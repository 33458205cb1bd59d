//! The validated program that semantic analysis produces and code
//! generation consumes.
use vstd::prelude::*;
use crate::fixed::Fixed;
use crate::ir_kinds::{Position, TransitionKind};

verus! {

#[derive(Debug, Clone, Copy, PartialEq, Eq, Structural)]
pub enum OutputFormat {
    Mp4,
    Mkv,
    Webm,
    Mov,
}

/// The file extension of an output format.
pub open spec fn format_extension(f: OutputFormat) -> Seq<char> {
    match f {
        OutputFormat::Mp4 => "mp4"@,
        OutputFormat::Mkv => "mkv"@,
        OutputFormat::Webm => "webm"@,
        OutputFormat::Mov => "mov"@,
    }
}

impl OutputFormat {
    pub fn extension(&self) -> (s: &'static str)
        ensures
            s@ == format_extension(*self),
    {
        match self {
            OutputFormat::Mp4 => "mp4",
            OutputFormat::Mkv => "mkv",
            OutputFormat::Webm => "webm",
            OutputFormat::Mov => "mov",
        }
    }
}

#[derive(Debug, Clone, Copy, PartialEq, Eq, Structural)]
pub enum Codec {
    H264,
    H265,
    Vp9,
    Av1,
}

/// The FFmpeg encoder of a codec.
pub open spec fn codec_encoder(c: Codec) -> Seq<char> {
    match c {
        Codec::H264 => "libx264"@,
        Codec::H265 => "libx265"@,
        Codec::Vp9 => "libvpx-vp9"@,
        Codec::Av1 => "libaom-av1"@,
    }
}

impl Codec {
    pub fn ffmpeg_encoder(&self) -> (s: &'static str)
        ensures
            s@ == codec_encoder(*self),
    {
        match self {
            Codec::H264 => "libx264",
            Codec::H265 => "libx265",
            Codec::Vp9 => "libvpx-vp9",
            Codec::Av1 => "libaom-av1",
        }
    }
}

#[derive(Debug, Clone, Copy, PartialEq, Eq, Structural)]
pub enum Quality {
    Low,
    Medium,
    High,
    Lossless,
}

/// The encoder preset of a quality level.
pub open spec fn quality_preset(q: Quality) -> Seq<char> {
    match q {
        Quality::Low => "ultrafast"@,
        Quality::Medium => "medium"@,
        Quality::High => "slow"@,
        Quality::Lossless => "veryslow"@,
    }
}

/// The constant rate factor of a quality level.
pub open spec fn quality_crf(q: Quality) -> u8 {
    match q {
        Quality::Low => 28,
        Quality::Medium => 23,
        Quality::High => 18,
        Quality::Lossless => 0,
    }
}

impl Quality {
    pub fn ffmpeg_preset(&self) -> (s: &'static str)
        ensures
            s@ == quality_preset(*self),
    {
        match self {
            Quality::Low => "ultrafast",
            Quality::Medium => "medium",
            Quality::High => "slow",
            Quality::Lossless => "veryslow",
        }
    }

    pub fn ffmpeg_crf(&self) -> (n: u8)
        ensures
            n == quality_crf(*self),
    {
        match self {
            Quality::Low => 28,
            Quality::Medium => 23,
            Quality::High => 18,
            Quality::Lossless => 0,
        }
    }
}

/// How the video content is fitted into the output frame.
#[derive(Debug, Clone, Copy, PartialEq, Eq, Structural)]
pub enum FitMode {
    Fill,
    Letterbox,
    Crop,
}

#[derive(Debug, Clone)]
pub struct IrProject {
    pub name: String,
    pub width: u32,
    pub height: u32,
    pub fps: u32,
    pub format: OutputFormat,
    pub codec: Codec,
    pub quality: Quality,
    pub fit: FitMode,
}

#[derive(Debug, Clone, Copy, PartialEq, Eq, Structural)]
pub enum IrAssetKind {
    Video,
    Audio,
    Image,
}

#[derive(Debug, Clone)]
pub struct IrAsset {
    pub name: String,
    pub kind: IrAssetKind,
    pub path: String,
}

/// A fully resolved clip with all times in seconds.
#[derive(Debug, Clone)]
pub struct IrClip {
    pub asset_name: String,
    pub asset_path: String,
    pub asset_kind: IrAssetKind,
    pub from_sec: Option<Fixed>,
    pub to_sec: Option<Fixed>,
    pub duration_sec: Option<Fixed>,
    pub volume: Option<Fixed>,
    pub speed: Option<Fixed>,
    pub fade_in_sec: Option<Fixed>,
    pub fade_out_sec: Option<Fixed>,
    pub brightness: Option<Fixed>,
    pub contrast: Option<Fixed>,
    pub saturation: Option<Fixed>,
    /// Peak zoom level of the zoompan animation (2 is a 2x zoom): normal,
    /// zoom in, hold, zoom out.
    pub zoom: Option<Fixed>,
    /// Whether the source asset contains an audio stream; without one the
    /// generated command uses silence in its place.
    pub has_audio: bool,
    pub crop: Option<String>,
    pub blur: Option<Fixed>,
    pub opacity: Option<Fixed>,
    pub rotate: Option<Fixed>,
    pub flip: Option<String>,
    pub vignette: Option<Fixed>,
    pub grain: Option<Fixed>,
    pub sharpen: Option<Fixed>,
    /// Pan offsets of the zoompan focus point, from -1 to 1.
    pub pan_x: Option<Fixed>,
    pub pan_y: Option<Fixed>,
    pub reverse: Option<bool>,
    /// Chroma key color ("green", "blue", "#00FF00").
    pub chromakey: Option<String>,
    pub normalize: Option<bool>,
    /// How many times the clip plays in a row.
    pub loop_count: Option<u32>,
    pub stabilize: Option<bool>,
}

/// A fully resolved text overlay with all times in seconds.
#[derive(Debug, Clone)]
pub struct IrTextOverlay {
    pub content: String,
    pub at_sec: Fixed,
    pub duration_sec: Fixed,
    pub font: String,
    pub size: u32,
    pub color: String,
    pub position: Position,
    pub fade_in_sec: Option<Fixed>,
    pub fade_out_sec: Option<Fixed>,
}

/// A transition between two adjacent clips.
#[derive(Debug, Clone, Copy, PartialEq, Eq, Structural)]
pub struct IrTransition {
    pub kind: TransitionKind,
    pub duration_sec: Fixed,
}

/// A fully resolved image overlay.
#[derive(Debug, Clone)]
pub struct IrImageOverlay {
    pub asset_name: String,
    pub asset_path: String,
    pub at_sec: Fixed,
    pub duration_sec: Fixed,
    pub position: Position,
    pub scale: Option<Fixed>,
    pub opacity: Option<Fixed>,
}

/// A silent black gap in the timeline.
#[derive(Debug, Clone, Copy, PartialEq, Eq, Structural)]
pub struct IrGap {
    pub duration_sec: Fixed,
}

/// A freeze frame from a clip asset.
#[derive(Debug, Clone)]
pub struct IrFreeze {
    pub asset_name: String,
    pub asset_path: String,
    pub at_sec: Fixed,
    pub duration_sec: Fixed,
}

/// Picture-in-picture overlay.
#[derive(Debug, Clone)]
pub struct IrPip {
    pub asset_name: String,
    pub asset_path: String,
    pub from_sec: Option<Fixed>,
    pub to_sec: Option<Fixed>,
    pub at_sec: Fixed,
    pub duration_sec: Fixed,
    pub position: Position,
    pub scale: Fixed,
}

/// Subtitle (.srt) import.
#[derive(Debug, Clone)]
pub struct IrSubtitle {
    pub path: String,
}

#[derive(Debug, Clone)]
pub enum IrTrackItem {
    Clip(IrClip),
    TextOverlay(IrTextOverlay),
    Transition(IrTransition),
    ImageOverlay(IrImageOverlay),
    Gap(IrGap),
    Freeze(IrFreeze),
    Pip(IrPip),
    Subtitle(IrSubtitle),
}

#[derive(Debug, Clone, Copy, PartialEq, Eq, Structural)]
pub enum IrTrackKind {
    Video,
    Audio,
    Text,
    Overlay,
}

#[derive(Debug, Clone)]
pub struct IrTrack {
    pub kind: IrTrackKind,
    pub items: Vec<IrTrackItem>,
}

#[derive(Debug, Clone)]
pub struct IrTimeline {
    pub name: String,
    pub tracks: Vec<IrTrack>,
}

/// Output configuration of one of several outputs.
#[derive(Debug, Clone)]
pub struct IrOutputConfig {
    pub path: String,
    pub width: Option<u32>,
    pub height: Option<u32>,
    pub format: Option<OutputFormat>,
    pub codec: Option<Codec>,
    pub quality: Option<Quality>,
}

/// Top-level validated program produced by semantic analysis.
#[derive(Debug, Clone)]
pub struct IrProgram {
    pub project: IrProject,
    pub assets: Vec<IrAsset>,
    pub timeline: IrTimeline,
    pub outputs: Vec<IrOutputConfig>,
}


// ---------------------------------------------------------------------------
// Views: the same values with their text held as character sequences
// ---------------------------------------------------------------------------

/// The text of an optional string.
pub open spec fn opt_text(s: Option<String>) -> Option<Seq<char>> {
    match s {
        Some(t) => Some(t@),
        None => None,
    }
}

pub struct IrClipView {
    pub asset_name: Seq<char>,
    pub asset_path: Seq<char>,
    pub asset_kind: IrAssetKind,
    pub from_sec: Option<Fixed>,
    pub to_sec: Option<Fixed>,
    pub duration_sec: Option<Fixed>,
    pub volume: Option<Fixed>,
    pub speed: Option<Fixed>,
    pub fade_in_sec: Option<Fixed>,
    pub fade_out_sec: Option<Fixed>,
    pub brightness: Option<Fixed>,
    pub contrast: Option<Fixed>,
    pub saturation: Option<Fixed>,
    pub zoom: Option<Fixed>,
    pub has_audio: bool,
    pub crop: Option<Seq<char>>,
    pub blur: Option<Fixed>,
    pub opacity: Option<Fixed>,
    pub rotate: Option<Fixed>,
    pub flip: Option<Seq<char>>,
    pub vignette: Option<Fixed>,
    pub grain: Option<Fixed>,
    pub sharpen: Option<Fixed>,
    pub pan_x: Option<Fixed>,
    pub pan_y: Option<Fixed>,
    pub reverse: Option<bool>,
    pub chromakey: Option<Seq<char>>,
    pub normalize: Option<bool>,
    pub loop_count: Option<u32>,
    pub stabilize: Option<bool>,
}

impl View for IrClip {
    type V = IrClipView;

    open spec fn view(&self) -> IrClipView {
        IrClipView {
            asset_name: self.asset_name@,
            asset_path: self.asset_path@,
            asset_kind: self.asset_kind,
            from_sec: self.from_sec,
            to_sec: self.to_sec,
            duration_sec: self.duration_sec,
            volume: self.volume,
            speed: self.speed,
            fade_in_sec: self.fade_in_sec,
            fade_out_sec: self.fade_out_sec,
            brightness: self.brightness,
            contrast: self.contrast,
            saturation: self.saturation,
            zoom: self.zoom,
            has_audio: self.has_audio,
            crop: opt_text(self.crop),
            blur: self.blur,
            opacity: self.opacity,
            rotate: self.rotate,
            flip: opt_text(self.flip),
            vignette: self.vignette,
            grain: self.grain,
            sharpen: self.sharpen,
            pan_x: self.pan_x,
            pan_y: self.pan_y,
            reverse: self.reverse,
            chromakey: opt_text(self.chromakey),
            normalize: self.normalize,
            loop_count: self.loop_count,
            stabilize: self.stabilize,
        }
    }
}

pub struct IrTextOverlayView {
    pub content: Seq<char>,
    pub at_sec: Fixed,
    pub duration_sec: Fixed,
    pub font: Seq<char>,
    pub size: u32,
    pub color: Seq<char>,
    pub position: Position,
    pub fade_in_sec: Option<Fixed>,
    pub fade_out_sec: Option<Fixed>,
}

impl View for IrTextOverlay {
    type V = IrTextOverlayView;

    open spec fn view(&self) -> IrTextOverlayView {
        IrTextOverlayView {
            content: self.content@,
            at_sec: self.at_sec,
            duration_sec: self.duration_sec,
            font: self.font@,
            size: self.size,
            color: self.color@,
            position: self.position,
            fade_in_sec: self.fade_in_sec,
            fade_out_sec: self.fade_out_sec,
        }
    }
}

pub struct IrImageOverlayView {
    pub asset_name: Seq<char>,
    pub asset_path: Seq<char>,
    pub at_sec: Fixed,
    pub duration_sec: Fixed,
    pub position: Position,
    pub scale: Option<Fixed>,
    pub opacity: Option<Fixed>,
}

impl View for IrImageOverlay {
    type V = IrImageOverlayView;

    open spec fn view(&self) -> IrImageOverlayView {
        IrImageOverlayView {
            asset_name: self.asset_name@,
            asset_path: self.asset_path@,
            at_sec: self.at_sec,
            duration_sec: self.duration_sec,
            position: self.position,
            scale: self.scale,
            opacity: self.opacity,
        }
    }
}

pub struct IrFreezeView {
    pub asset_name: Seq<char>,
    pub asset_path: Seq<char>,
    pub at_sec: Fixed,
    pub duration_sec: Fixed,
}

impl View for IrFreeze {
    type V = IrFreezeView;

    open spec fn view(&self) -> IrFreezeView {
        IrFreezeView {
            asset_name: self.asset_name@,
            asset_path: self.asset_path@,
            at_sec: self.at_sec,
            duration_sec: self.duration_sec,
        }
    }
}

pub struct IrPipView {
    pub asset_name: Seq<char>,
    pub asset_path: Seq<char>,
    pub from_sec: Option<Fixed>,
    pub to_sec: Option<Fixed>,
    pub at_sec: Fixed,
    pub duration_sec: Fixed,
    pub position: Position,
    pub scale: Fixed,
}

impl View for IrPip {
    type V = IrPipView;

    open spec fn view(&self) -> IrPipView {
        IrPipView {
            asset_name: self.asset_name@,
            asset_path: self.asset_path@,
            from_sec: self.from_sec,
            to_sec: self.to_sec,
            at_sec: self.at_sec,
            duration_sec: self.duration_sec,
            position: self.position,
            scale: self.scale,
        }
    }
}

pub struct IrProjectView {
    pub name: Seq<char>,
    pub width: u32,
    pub height: u32,
    pub fps: u32,
    pub format: OutputFormat,
    pub codec: Codec,
    pub quality: Quality,
    pub fit: FitMode,
}

impl View for IrProject {
    type V = IrProjectView;

    open spec fn view(&self) -> IrProjectView {
        IrProjectView {
            name: self.name@,
            width: self.width,
            height: self.height,
            fps: self.fps,
            format: self.format,
            codec: self.codec,
            quality: self.quality,
            fit: self.fit,
        }
    }
}

pub struct IrAssetView {
    pub name: Seq<char>,
    pub kind: IrAssetKind,
    pub path: Seq<char>,
}

impl View for IrAsset {
    type V = IrAssetView;

    open spec fn view(&self) -> IrAssetView {
        IrAssetView {
            name: self.name@,
            kind: self.kind,
            path: self.path@,
        }
    }
}

pub struct IrOutputConfigView {
    pub path: Seq<char>,
    pub width: Option<u32>,
    pub height: Option<u32>,
    pub format: Option<OutputFormat>,
    pub codec: Option<Codec>,
    pub quality: Option<Quality>,
}

impl View for IrOutputConfig {
    type V = IrOutputConfigView;

    open spec fn view(&self) -> IrOutputConfigView {
        IrOutputConfigView {
            path: self.path@,
            width: self.width,
            height: self.height,
            format: self.format,
            codec: self.codec,
            quality: self.quality,
        }
    }
}

pub enum IrItemView {
    Clip(IrClipView),
    TextOverlay(IrTextOverlayView),
    Transition(IrTransition),
    ImageOverlay(IrImageOverlayView),
    Gap(IrGap),
    Freeze(IrFreezeView),
    Pip(IrPipView),
    Subtitle(Seq<char>),
}

impl View for IrTrackItem {
    type V = IrItemView;

    open spec fn view(&self) -> IrItemView {
        match self {
            IrTrackItem::Clip(c) => IrItemView::Clip(c@),
            IrTrackItem::TextOverlay(t) => IrItemView::TextOverlay(t@),
            IrTrackItem::Transition(t) => IrItemView::Transition(*t),
            IrTrackItem::ImageOverlay(o) => IrItemView::ImageOverlay(o@),
            IrTrackItem::Gap(g) => IrItemView::Gap(*g),
            IrTrackItem::Freeze(f) => IrItemView::Freeze(f@),
            IrTrackItem::Pip(p) => IrItemView::Pip(p@),
            IrTrackItem::Subtitle(s) => IrItemView::Subtitle(s.path@),
        }
    }
}

pub type IrTrackView = (IrTrackKind, Seq<IrItemView>);

impl View for IrTrack {
    type V = IrTrackView;

    open spec fn view(&self) -> IrTrackView {
        (self.kind, self.items@.map_values(|i: IrTrackItem| i@))
    }
}

pub type IrTimelineView = (Seq<char>, Seq<IrTrackView>);

impl View for IrTimeline {
    type V = IrTimelineView;

    open spec fn view(&self) -> IrTimelineView {
        (self.name@, self.tracks@.map_values(|t: IrTrack| t@))
    }
}

pub struct IrProgramView {
    pub project: IrProjectView,
    pub assets: Seq<IrAssetView>,
    pub timeline: IrTimelineView,
    pub outputs: Seq<IrOutputConfigView>,
}

impl View for IrProgram {
    type V = IrProgramView;

    open spec fn view(&self) -> IrProgramView {
        IrProgramView {
            project: self.project@,
            assets: self.assets@.map_values(|a: IrAsset| a@),
            timeline: self.timeline@,
            outputs: self.outputs@.map_values(|o: IrOutputConfig| o@),
        }
    }
}

/// A clip of the asset `name` at `path` of kind `kind`, with every setting
/// left at its default.
pub open spec fn default_clip(name: Seq<char>, path: Seq<char>, kind: IrAssetKind) -> IrClipView {
    IrClipView {
        asset_name: name,
        asset_path: path,
        asset_kind: kind,
        from_sec: None,
        to_sec: None,
        duration_sec: None,
        volume: None,
        speed: None,
        fade_in_sec: None,
        fade_out_sec: None,
        brightness: None,
        contrast: None,
        saturation: None,
        zoom: None,
        has_audio: true,
        crop: None,
        blur: None,
        opacity: None,
        rotate: None,
        flip: None,
        vignette: None,
        grain: None,
        sharpen: None,
        pan_x: None,
        pan_y: None,
        reverse: None,
        chromakey: None,
        normalize: None,
        loop_count: None,
        stabilize: None,
    }
}

impl Default for IrClip {
    fn default() -> (c: Self)
        ensures
            c@ == default_clip(Seq::empty(), Seq::empty(), IrAssetKind::Video),
    {
        let c = IrClip {
            asset_name: String::new(),
            asset_path: String::new(),
            asset_kind: IrAssetKind::Video,
            from_sec: None,
            to_sec: None,
            duration_sec: None,
            volume: None,
            speed: None,
            fade_in_sec: None,
            fade_out_sec: None,
            brightness: None,
            contrast: None,
            saturation: None,
            zoom: None,
            has_audio: true,
            crop: None,
            blur: None,
            opacity: None,
            rotate: None,
            flip: None,
            vignette: None,
            grain: None,
            sharpen: None,
            pan_x: None,
            pan_y: None,
            reverse: None,
            chromakey: None,
            normalize: None,
            loop_count: None,
            stabilize: None,
        };
        assert(c@.asset_name =~= Seq::<char>::empty());
        assert(c@.asset_path =~= Seq::<char>::empty());
        c
    }
}

} // verus!
