//! Positions on screen and transition kinds of the validated program, with
//! the FFmpeg expressions and names they stand for.
use vstd::prelude::*;
use crate::fixed::Fixed;
use crate::text::{chars_eq_str, chars_of};

verus! {
#[derive(Debug, Clone, Copy, PartialEq, Eq, Structural)]
pub enum Position {
    Center,
    TopLeft,
    TopRight,
    BottomLeft,
    BottomRight,
    Top,
    Bottom,
    Left,
    Right,
}

/// The drawtext `x` and `y` expressions that place text at `p`.
pub open spec fn text_xy(p: Position) -> (Seq<char>, Seq<char>) {
    match p {
        Position::Center => ("(w-text_w)/2"@, "(h-text_h)/2"@),
        Position::TopLeft => ("10"@, "10"@),
        Position::TopRight => ("w-text_w-10"@, "10"@),
        Position::BottomLeft => ("10"@, "h-text_h-10"@),
        Position::BottomRight => ("w-text_w-10"@, "h-text_h-10"@),
        Position::Top => ("(w-text_w)/2"@, "10"@),
        Position::Bottom => ("(w-text_w)/2"@, "h-text_h-10"@),
        Position::Left => ("10"@, "(h-text_h)/2"@),
        Position::Right => ("w-text_w-10"@, "(h-text_h)/2"@),
    }
}

/// The overlay `x` and `y` expressions that place an image at `p`.
pub open spec fn overlay_xy(p: Position) -> (Seq<char>, Seq<char>) {
    match p {
        Position::Center => ("(W-w)/2"@, "(H-h)/2"@),
        Position::TopLeft => ("10"@, "10"@),
        Position::TopRight => ("W-w-10"@, "10"@),
        Position::BottomLeft => ("10"@, "H-h-10"@),
        Position::BottomRight => ("W-w-10"@, "H-h-10"@),
        Position::Top => ("(W-w)/2"@, "10"@),
        Position::Bottom => ("(W-w)/2"@, "H-h-10"@),
        Position::Left => ("10"@, "(H-h)/2"@),
        Position::Right => ("W-w-10"@, "(H-h)/2"@),
    }
}

impl Position {
    /// The FFmpeg drawtext x,y expressions.
    pub fn to_ffmpeg_xy(&self) -> (r: (&'static str, &'static str))
        ensures
            (r.0@, r.1@) == text_xy(*self),
    {
        match self {
            Position::Center => ("(w-text_w)/2", "(h-text_h)/2"),
            Position::TopLeft => ("10", "10"),
            Position::TopRight => ("w-text_w-10", "10"),
            Position::BottomLeft => ("10", "h-text_h-10"),
            Position::BottomRight => ("w-text_w-10", "h-text_h-10"),
            Position::Top => ("(w-text_w)/2", "10"),
            Position::Bottom => ("(w-text_w)/2", "h-text_h-10"),
            Position::Left => ("10", "(h-text_h)/2"),
            Position::Right => ("w-text_w-10", "(h-text_h)/2"),
        }
    }

    /// The FFmpeg overlay x,y expressions for an image overlay.
    pub fn to_overlay_xy(&self) -> (r: (&'static str, &'static str))
        ensures
            (r.0@, r.1@) == overlay_xy(*self),
    {
        match self {
            Position::Center => ("(W-w)/2", "(H-h)/2"),
            Position::TopLeft => ("10", "10"),
            Position::TopRight => ("W-w-10", "10"),
            Position::BottomLeft => ("10", "H-h-10"),
            Position::BottomRight => ("W-w-10", "H-h-10"),
            Position::Top => ("(W-w)/2", "10"),
            Position::Bottom => ("(W-w)/2", "H-h-10"),
            Position::Left => ("10", "(H-h)/2"),
            Position::Right => ("W-w-10", "(H-h)/2"),
        }
    }
}

#[derive(Debug, Clone, Copy, PartialEq, Eq, Structural)]
pub enum TransitionKind {
    Fade,
    FadeBlack,
    FadeWhite,
    Dissolve,
    WipeLeft,
    WipeRight,
    WipeUp,
    WipeDown,
    SlideLeft,
    SlideRight,
    SlideUp,
    SlideDown,
    ZoomIn,
    SmoothLeft,
    SmoothRight,
    SmoothUp,
    SmoothDown,
    SqueezeH,
    SqueezeV,
    CircleCrop,
    Pixelize,
}

/// The FFmpeg xfade name of a transition.
pub open spec fn xfade_name(k: TransitionKind) -> Seq<char> {
    match k {
        TransitionKind::Fade => "fade"@,
        TransitionKind::FadeBlack => "fadeblack"@,
        TransitionKind::FadeWhite => "fadewhite"@,
        TransitionKind::Dissolve => "dissolve"@,
        TransitionKind::WipeLeft => "wipeleft"@,
        TransitionKind::WipeRight => "wiperight"@,
        TransitionKind::WipeUp => "wipeup"@,
        TransitionKind::WipeDown => "wipedown"@,
        TransitionKind::SlideLeft => "slideleft"@,
        TransitionKind::SlideRight => "slideright"@,
        TransitionKind::SlideUp => "slideup"@,
        TransitionKind::SlideDown => "slidedown"@,
        TransitionKind::ZoomIn => "zoomin"@,
        TransitionKind::SmoothLeft => "smoothleft"@,
        TransitionKind::SmoothRight => "smoothright"@,
        TransitionKind::SmoothUp => "smoothup"@,
        TransitionKind::SmoothDown => "smoothdown"@,
        TransitionKind::SqueezeH => "squeezeh"@,
        TransitionKind::SqueezeV => "squeezev"@,
        TransitionKind::CircleCrop => "circlecrop"@,
        TransitionKind::Pixelize => "pixelize"@,
    }
}

/// The transition that a user-facing name denotes.
pub open spec fn transition_named(s: Seq<char>) -> Option<TransitionKind> {
    if s == "fade"@ {
        Some(TransitionKind::Fade)
    } else if s == "fadeblack"@ || s == "fade-black"@ {
        Some(TransitionKind::FadeBlack)
    } else if s == "fadewhite"@ || s == "fade-white"@ {
        Some(TransitionKind::FadeWhite)
    } else if s == "dissolve"@ {
        Some(TransitionKind::Dissolve)
    } else if s == "wipe-left"@ || s == "wipeleft"@ {
        Some(TransitionKind::WipeLeft)
    } else if s == "wipe-right"@ || s == "wiperight"@ {
        Some(TransitionKind::WipeRight)
    } else if s == "wipe-up"@ || s == "wipeup"@ {
        Some(TransitionKind::WipeUp)
    } else if s == "wipe-down"@ || s == "wipedown"@ {
        Some(TransitionKind::WipeDown)
    } else if s == "slide-left"@ || s == "slideleft"@ {
        Some(TransitionKind::SlideLeft)
    } else if s == "slide-right"@ || s == "slideright"@ {
        Some(TransitionKind::SlideRight)
    } else if s == "slide-up"@ || s == "slideup"@ {
        Some(TransitionKind::SlideUp)
    } else if s == "slide-down"@ || s == "slidedown"@ {
        Some(TransitionKind::SlideDown)
    } else if s == "zoomin"@ || s == "zoom-in"@ {
        Some(TransitionKind::ZoomIn)
    } else if s == "smooth-left"@ || s == "smoothleft"@ {
        Some(TransitionKind::SmoothLeft)
    } else if s == "smooth-right"@ || s == "smoothright"@ {
        Some(TransitionKind::SmoothRight)
    } else if s == "smooth-up"@ || s == "smoothup"@ {
        Some(TransitionKind::SmoothUp)
    } else if s == "smooth-down"@ || s == "smoothdown"@ {
        Some(TransitionKind::SmoothDown)
    } else if s == "squeeze-h"@ || s == "squeezeh"@ {
        Some(TransitionKind::SqueezeH)
    } else if s == "squeeze-v"@ || s == "squeezev"@ {
        Some(TransitionKind::SqueezeV)
    } else if s == "circlecrop"@ || s == "circle-crop"@ {
        Some(TransitionKind::CircleCrop)
    } else if s == "pixelize"@ {
        Some(TransitionKind::Pixelize)
    } else {
        None
    }
}

impl TransitionKind {
    /// The FFmpeg xfade transition name.
    pub fn to_ffmpeg(&self) -> (s: &'static str)
        ensures
            s@ == xfade_name(*self),
    {
        match self {
            TransitionKind::Fade => "fade",
            TransitionKind::FadeBlack => "fadeblack",
            TransitionKind::FadeWhite => "fadewhite",
            TransitionKind::Dissolve => "dissolve",
            TransitionKind::WipeLeft => "wipeleft",
            TransitionKind::WipeRight => "wiperight",
            TransitionKind::WipeUp => "wipeup",
            TransitionKind::WipeDown => "wipedown",
            TransitionKind::SlideLeft => "slideleft",
            TransitionKind::SlideRight => "slideright",
            TransitionKind::SlideUp => "slideup",
            TransitionKind::SlideDown => "slidedown",
            TransitionKind::ZoomIn => "zoomin",
            TransitionKind::SmoothLeft => "smoothleft",
            TransitionKind::SmoothRight => "smoothright",
            TransitionKind::SmoothUp => "smoothup",
            TransitionKind::SmoothDown => "smoothdown",
            TransitionKind::SqueezeH => "squeezeh",
            TransitionKind::SqueezeV => "squeezev",
            TransitionKind::CircleCrop => "circlecrop",
            TransitionKind::Pixelize => "pixelize",
        }
    }

    /// The transition named by a user-facing string, if any.
    pub fn from_str(s: &str) -> (r: Option<TransitionKind>)
        ensures
            r == transition_named(s@),
    {
        let v = chars_of(s);
        let c = v.as_slice();
        if chars_eq_str(c, "fade") {
            Some(TransitionKind::Fade)
        } else if chars_eq_str(c, "fadeblack") || chars_eq_str(c, "fade-black") {
            Some(TransitionKind::FadeBlack)
        } else if chars_eq_str(c, "fadewhite") || chars_eq_str(c, "fade-white") {
            Some(TransitionKind::FadeWhite)
        } else if chars_eq_str(c, "dissolve") {
            Some(TransitionKind::Dissolve)
        } else if chars_eq_str(c, "wipe-left") || chars_eq_str(c, "wipeleft") {
            Some(TransitionKind::WipeLeft)
        } else if chars_eq_str(c, "wipe-right") || chars_eq_str(c, "wiperight") {
            Some(TransitionKind::WipeRight)
        } else if chars_eq_str(c, "wipe-up") || chars_eq_str(c, "wipeup") {
            Some(TransitionKind::WipeUp)
        } else if chars_eq_str(c, "wipe-down") || chars_eq_str(c, "wipedown") {
            Some(TransitionKind::WipeDown)
        } else if chars_eq_str(c, "slide-left") || chars_eq_str(c, "slideleft") {
            Some(TransitionKind::SlideLeft)
        } else if chars_eq_str(c, "slide-right") || chars_eq_str(c, "slideright") {
            Some(TransitionKind::SlideRight)
        } else if chars_eq_str(c, "slide-up") || chars_eq_str(c, "slideup") {
            Some(TransitionKind::SlideUp)
        } else if chars_eq_str(c, "slide-down") || chars_eq_str(c, "slidedown") {
            Some(TransitionKind::SlideDown)
        } else if chars_eq_str(c, "zoomin") || chars_eq_str(c, "zoom-in") {
            Some(TransitionKind::ZoomIn)
        } else if chars_eq_str(c, "smooth-left") || chars_eq_str(c, "smoothleft") {
            Some(TransitionKind::SmoothLeft)
        } else if chars_eq_str(c, "smooth-right") || chars_eq_str(c, "smoothright") {
            Some(TransitionKind::SmoothRight)
        } else if chars_eq_str(c, "smooth-up") || chars_eq_str(c, "smoothup") {
            Some(TransitionKind::SmoothUp)
        } else if chars_eq_str(c, "smooth-down") || chars_eq_str(c, "smoothdown") {
            Some(TransitionKind::SmoothDown)
        } else if chars_eq_str(c, "squeeze-h") || chars_eq_str(c, "squeezeh") {
            Some(TransitionKind::SqueezeH)
        } else if chars_eq_str(c, "squeeze-v") || chars_eq_str(c, "squeezev") {
            Some(TransitionKind::SqueezeV)
        } else if chars_eq_str(c, "circlecrop") || chars_eq_str(c, "circle-crop") {
            Some(TransitionKind::CircleCrop)
        } else if chars_eq_str(c, "pixelize") {
            Some(TransitionKind::Pixelize)
        } else {
            None
        }
    }
}

} // verus!
