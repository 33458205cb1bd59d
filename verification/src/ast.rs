//! The syntax tree of a VEAC source file.
use vstd::prelude::*;
use crate::fixed::Fixed;

verus! {

/// A complete VEAC program.
#[derive(Debug, Clone)]
pub struct Program {
    pub includes: Vec<IncludeDecl>,
    pub project: Option<ProjectDecl>,
    pub assets: Vec<AssetDecl>,
    pub variables: Vec<LetDecl>,
    pub timelines: Vec<TimelineDecl>,
    pub outputs: Vec<OutputDecl>,
}

/// `project "name" { ... }`
#[derive(Debug, Clone)]
pub struct ProjectDecl {
    pub name: String,
    pub attributes: Vec<Attribute>,
}

/// `asset name = video("path")`
#[derive(Debug, Clone)]
pub struct AssetDecl {
    pub name: String,
    pub kind: AssetKind,
    pub path: String,
}

#[derive(Debug, Clone, Copy, PartialEq, Eq, Structural)]
pub enum AssetKind {
    Video,
    Audio,
    Image,
}

/// `let name = expr`
#[derive(Debug, Clone)]
pub struct LetDecl {
    pub name: String,
    pub value: Expression,
}

/// `timeline name { ... }`
#[derive(Debug, Clone)]
pub struct TimelineDecl {
    pub name: String,
    pub tracks: Vec<TrackDecl>,
}

/// `track video { ... }`, `track audio { ... }`, `track text { ... }` or `track overlay { ... }`
#[derive(Debug, Clone)]
pub struct TrackDecl {
    pub kind: TrackKind,
    pub items: Vec<TrackItem>,
}

#[derive(Debug, Clone, Copy, PartialEq, Eq, Structural)]
pub enum TrackKind {
    Video,
    Audio,
    Text,
    Overlay,
}

/// Items within a track.
#[derive(Debug, Clone)]
pub enum TrackItem {
    Clip(ClipDecl),
    TextOverlay(TextOverlayDecl),
    Transition(TransitionDecl),
    ImageOverlay(ImageOverlayDecl),
    Gap(GapDecl),
    Freeze(FreezeDecl),
    Pip(PipDecl),
    Subtitle(SubtitleDecl),
}

/// `clip asset_ref { ... }`
#[derive(Debug, Clone)]
pub struct ClipDecl {
    pub asset_ref: String,
    pub attributes: Vec<Attribute>,
}

/// `text "content" { ... }`
#[derive(Debug, Clone)]
pub struct TextOverlayDecl {
    pub content: String,
    pub attributes: Vec<Attribute>,
}

/// A `key = value` pair inside a block.
#[derive(Debug, Clone)]
pub struct Attribute {
    pub key: String,
    pub value: Expression,
}

/// Expression types in VEAC.
#[derive(Debug, Clone, PartialEq)]
pub enum Expression {
    StringLit(String),
    IntLit(i64),
    FloatLit(Fixed),
    BoolLit(bool),
    TimeSec(Fixed),
    TimeMs(Fixed),
    TimeFrames(u64),
    Smpte(String),
    ColorLit(String),
    Ident(String),
}

/// `transition { type = "fade"  duration = 1s }`
#[derive(Debug, Clone)]
pub struct TransitionDecl {
    pub attributes: Vec<Attribute>,
}

/// `image asset_ref { at = 0s  duration = 30s  position = "top-right" ... }`
#[derive(Debug, Clone)]
pub struct ImageOverlayDecl {
    pub asset_ref: String,
    pub attributes: Vec<Attribute>,
}

/// `include "./templates/intro-template.veac"`
#[derive(Debug, Clone)]
pub struct IncludeDecl {
    pub path: String,
}

/// `gap { duration = 2s }`: a silent black gap in the timeline.
#[derive(Debug, Clone)]
pub struct GapDecl {
    pub attributes: Vec<Attribute>,
}

/// `freeze asset_ref { duration = 3s }`: a held frame of a clip.
#[derive(Debug, Clone)]
pub struct FreezeDecl {
    pub asset_ref: String,
    pub attributes: Vec<Attribute>,
}

/// `pip asset_ref { ... }`: picture-in-picture overlay.
#[derive(Debug, Clone)]
pub struct PipDecl {
    pub asset_ref: String,
    pub attributes: Vec<Attribute>,
}

/// `subtitle "path.srt" { ... }`: subtitle import.
#[derive(Debug, Clone)]
pub struct SubtitleDecl {
    pub path: String,
    pub attributes: Vec<Attribute>,
}

/// `output "path" { ... }`: an additional output definition.
#[derive(Debug, Clone)]
pub struct OutputDecl {
    pub path: String,
    pub attributes: Vec<Attribute>,
}

// ---------------------------------------------------------------------------
// Views: the same trees with their text held as character sequences
// ---------------------------------------------------------------------------

pub enum ExprView {
    StringLit(Seq<char>),
    IntLit(i64),
    FloatLit(Fixed),
    BoolLit(bool),
    TimeSec(Fixed),
    TimeMs(Fixed),
    TimeFrames(u64),
    Smpte(Seq<char>),
    ColorLit(Seq<char>),
    Ident(Seq<char>),
}

/// An attribute: key and value.
pub type AttrView = (Seq<char>, ExprView);

/// A block: a name, reference, content or path, and its attributes.
pub type BlockView = (Seq<char>, Seq<AttrView>);

pub enum ItemView {
    Clip(BlockView),
    TextOverlay(BlockView),
    Transition(Seq<AttrView>),
    ImageOverlay(BlockView),
    Gap(Seq<AttrView>),
    Freeze(BlockView),
    Pip(BlockView),
    Subtitle(BlockView),
}

pub type TrackView = (TrackKind, Seq<ItemView>);

pub type TimelineView = (Seq<char>, Seq<TrackView>);

pub type AssetView = (Seq<char>, AssetKind, Seq<char>);

pub type LetView = (Seq<char>, ExprView);

pub struct ProgramView {
    pub includes: Seq<Seq<char>>,
    pub project: Option<BlockView>,
    pub assets: Seq<AssetView>,
    pub variables: Seq<LetView>,
    pub timelines: Seq<TimelineView>,
    pub outputs: Seq<BlockView>,
}

impl View for Expression {
    type V = ExprView;

    open spec fn view(&self) -> ExprView {
        match self {
            Expression::StringLit(s) => ExprView::StringLit(s@),
            Expression::IntLit(n) => ExprView::IntLit(*n),
            Expression::FloatLit(x) => ExprView::FloatLit(*x),
            Expression::BoolLit(b) => ExprView::BoolLit(*b),
            Expression::TimeSec(x) => ExprView::TimeSec(*x),
            Expression::TimeMs(x) => ExprView::TimeMs(*x),
            Expression::TimeFrames(n) => ExprView::TimeFrames(*n),
            Expression::Smpte(s) => ExprView::Smpte(s@),
            Expression::ColorLit(s) => ExprView::ColorLit(s@),
            Expression::Ident(s) => ExprView::Ident(s@),
        }
    }
}

impl View for Attribute {
    type V = AttrView;

    open spec fn view(&self) -> AttrView {
        (self.key@, self.value@)
    }
}

/// The views of a run of attributes.
pub open spec fn attrs_view(v: Seq<Attribute>) -> Seq<AttrView> {
    v.map_values(|a: Attribute| a@)
}

impl View for ClipDecl {
    type V = BlockView;

    open spec fn view(&self) -> BlockView {
        (self.asset_ref@, attrs_view(self.attributes@))
    }
}

impl View for TextOverlayDecl {
    type V = BlockView;

    open spec fn view(&self) -> BlockView {
        (self.content@, attrs_view(self.attributes@))
    }
}

impl View for TransitionDecl {
    type V = Seq<AttrView>;

    open spec fn view(&self) -> Seq<AttrView> {
        attrs_view(self.attributes@)
    }
}

impl View for ImageOverlayDecl {
    type V = BlockView;

    open spec fn view(&self) -> BlockView {
        (self.asset_ref@, attrs_view(self.attributes@))
    }
}

impl View for GapDecl {
    type V = Seq<AttrView>;

    open spec fn view(&self) -> Seq<AttrView> {
        attrs_view(self.attributes@)
    }
}

impl View for FreezeDecl {
    type V = BlockView;

    open spec fn view(&self) -> BlockView {
        (self.asset_ref@, attrs_view(self.attributes@))
    }
}

impl View for PipDecl {
    type V = BlockView;

    open spec fn view(&self) -> BlockView {
        (self.asset_ref@, attrs_view(self.attributes@))
    }
}

impl View for SubtitleDecl {
    type V = BlockView;

    open spec fn view(&self) -> BlockView {
        (self.path@, attrs_view(self.attributes@))
    }
}

impl View for IncludeDecl {
    type V = Seq<char>;

    open spec fn view(&self) -> Seq<char> {
        self.path@
    }
}

impl View for TrackItem {
    type V = ItemView;

    open spec fn view(&self) -> ItemView {
        match self {
            TrackItem::Clip(d) => ItemView::Clip(d@),
            TrackItem::TextOverlay(d) => ItemView::TextOverlay(d@),
            TrackItem::Transition(d) => ItemView::Transition(d@),
            TrackItem::ImageOverlay(d) => ItemView::ImageOverlay(d@),
            TrackItem::Gap(d) => ItemView::Gap(d@),
            TrackItem::Freeze(d) => ItemView::Freeze(d@),
            TrackItem::Pip(d) => ItemView::Pip(d@),
            TrackItem::Subtitle(d) => ItemView::Subtitle(d@),
        }
    }
}

impl View for TrackDecl {
    type V = TrackView;

    open spec fn view(&self) -> TrackView {
        (self.kind, self.items@.map_values(|i: TrackItem| i@))
    }
}

impl View for TimelineDecl {
    type V = TimelineView;

    open spec fn view(&self) -> TimelineView {
        (self.name@, self.tracks@.map_values(|t: TrackDecl| t@))
    }
}

impl View for AssetDecl {
    type V = AssetView;

    open spec fn view(&self) -> AssetView {
        (self.name@, self.kind, self.path@)
    }
}

impl View for LetDecl {
    type V = LetView;

    open spec fn view(&self) -> LetView {
        (self.name@, self.value@)
    }
}

impl View for ProjectDecl {
    type V = BlockView;

    open spec fn view(&self) -> BlockView {
        (self.name@, attrs_view(self.attributes@))
    }
}

impl View for OutputDecl {
    type V = BlockView;

    open spec fn view(&self) -> BlockView {
        (self.path@, attrs_view(self.attributes@))
    }
}

impl View for Program {
    type V = ProgramView;

    open spec fn view(&self) -> ProgramView {
        ProgramView {
            includes: self.includes@.map_values(|d: IncludeDecl| d@),
            project: match self.project {
                Some(p) => Some(p@),
                None => None,
            },
            assets: self.assets@.map_values(|a: AssetDecl| a@),
            variables: self.variables@.map_values(|l: LetDecl| l@),
            timelines: self.timelines@.map_values(|t: TimelineDecl| t@),
            outputs: self.outputs@.map_values(|o: OutputDecl| o@),
        }
    }
}

impl Expression {
    /// The same expression, with its text copied.
    pub fn copy(&self) -> (r: Expression)
        ensures
            r@ == self@,
    {
        match self {
            Expression::StringLit(s) => Expression::StringLit(s.clone()),
            Expression::IntLit(n) => Expression::IntLit(*n),
            Expression::FloatLit(x) => Expression::FloatLit(*x),
            Expression::BoolLit(b) => Expression::BoolLit(*b),
            Expression::TimeSec(x) => Expression::TimeSec(*x),
            Expression::TimeMs(x) => Expression::TimeMs(*x),
            Expression::TimeFrames(n) => Expression::TimeFrames(*n),
            Expression::Smpte(s) => Expression::Smpte(s.clone()),
            Expression::ColorLit(s) => Expression::ColorLit(s.clone()),
            Expression::Ident(s) => Expression::Ident(s.clone()),
        }
    }
}

} // verus!
