//! What particular operations are for, stated over all inputs: where a
//! clip's audio fades out, which position a name denotes, which words are
//! booleans, which kind a track word names, and which value each override
//! line of a batch row carries.
use vstd::prelude::*;
use crate::clips_spec::{est, g_audio_chain, step_if};
use crate::filter_graph::{g_unary, GraphView};
use crate::filters::{atempo_high, atempo_low, g_atempo};
use crate::fixed::{clamp64, fixed_text, Fixed};
use crate::ir::IrClipView;
use crate::ir_kinds::text_xy;
use crate::lexer::word_kind;
use crate::token::KindView;
use crate::ast::TrackKind;
use crate::batch::overrides;
use crate::parser_spec::{kind_at, p_track, Toks};
use crate::semantic_spec::position_named;

verus! {

/// `h` holds the filters of `g`, in their places, and perhaps more after
/// them.
pub open spec fn extends(g: GraphView, h: GraphView) -> bool {
    g.filters.len() <= h.filters.len() && forall|k: int| 0 <= k < g.filters.len() ==> #[trigger] h.filters[k] == g.filters[k]
}

proof fn lemma_atempo_low_extends(g: GraphView, cur: Seq<char>, rem: int)
    ensures
        extends(g, atempo_low(g, cur, rem).0),
    decreases (if rem < 500_000_000 { 500_000_000 - rem } else { 0 }),
{
    if 0 < rem < 500_000_000 {
        let (g1, out) = g_unary(g, "at"@, cur, "atempo=0.5"@);
        lemma_atempo_low_extends(g1, out, rem * 2);
    }
}

proof fn lemma_atempo_high_extends(g: GraphView, cur: Seq<char>, rem: int)
    ensures
        extends(g, atempo_high(g, cur, rem).0),
    decreases rem,
{
    if rem > 100_000_000_000 {
        let (g1, out) = g_unary(g, "at"@, cur, "atempo=100.0"@);
        lemma_atempo_high_extends(g1, out, rem / 100);
    }
}

proof fn lemma_atempo_extends(g: GraphView, input: Seq<char>, tempo: Fixed)
    ensures
        extends(g, g_atempo(g, input, tempo).0),
{
    let l = atempo_low(g, input, tempo.raw as int);
    lemma_atempo_low_extends(g, input, tempo.raw as int);
    let h = atempo_high(l.0, l.1, l.2);
    lemma_atempo_high_extends(l.0, l.1, l.2);
}

/// Where a clip that fades out over `fo` seconds starts fading: `fo` before
/// its estimated end, and at its start when it is no longer than `fo`.
pub open spec fn fade_out_start(length: Fixed, fo: Fixed) -> int {
    if length.raw - fo.raw <= 0 {
        0
    } else {
        clamp64(length.raw - fo.raw)
    }
}

/// A clip's audio fades out at its end: its audio chain holds a fade-out
/// filter that starts `fo` seconds before the clip's estimated length runs
/// out (or at 0 when the clip is no longer than that) and lasts `fo`.
pub proof fn lemma_audio_fades_out_at_end(g: GraphView, c: IrClipView, idx: nat, fo: Fixed)
    requires
        c.fade_out_sec == Some(fo),
    ensures
        exists|k: int|
            g.filters.len() <= k < g_audio_chain(g, c, idx).0.filters.len()
                && (#[trigger] g_audio_chain(g, c, idx).0.filters[k]).expr == "afade=t="@ + "out"@ + ":st="@
                + fixed_text(fade_out_start(est(c), fo)) + ":d="@ + fixed_text(fo.raw as int),
{
    let s1 = if c.has_audio {
        g_unary(g, "ta"@, crate::clips_spec::stream(idx, ":a"@), crate::filters::trim_text("atrim"@, c.from_sec, c.to_sec, ",asetpts=PTS-STARTPTS"@))
    } else {
        crate::filter_graph::g_source(g, "sil"@, crate::filters::silence_text(est(c)))
    };
    let s2 = match c.volume {
        Some(v) => g_unary(s1.0, "vol"@, s1.1, crate::filters::volume_text(v)),
        None => s1,
    };
    let s3 = match c.speed {
        Some(sp) => g_atempo(s2.0, s2.1, sp),
        None => s2,
    };
    match c.speed {
        Some(sp) => lemma_atempo_extends(s2.0, s2.1, sp),
        None => {},
    }
    let s4 = match c.fade_in_sec {
        Some(fi) => g_unary(s3.0, "af"@, s3.1, crate::filters::afade_text("in"@, Fixed { raw: 0 }, fi)),
        None => s3,
    };
    let start = crate::clips_spec::at_least_zero(crate::clips_spec::fsub(est(c), fo));
    let s5 = g_unary(s4.0, "af"@, s4.1, crate::filters::afade_text("out"@, start, fo));
    let s6 = step_if(c.reverse == Some(true), s5, g_unary(s5.0, "arev"@, s5.1, "areverse"@));
    let s7 = step_if(c.normalize == Some(true), s6, g_unary(s6.0, "ln"@, s6.1, "loudnorm"@));
    let k = s4.0.filters.len() as int;
    assert(s7 == g_audio_chain(g, c, idx));
    assert(start.raw == fade_out_start(est(c), fo));
    assert(s7.0.filters[k] == s5.0.filters[k]);
    assert(s7.0.filters[k].expr =~= "afade=t="@ + "out"@ + ":st="@ + fixed_text(fade_out_start(est(c), fo)) + ":d="@
        + fixed_text(fo.raw as int));
}

/// `s` ends with `t`.
pub open spec fn ends_with(s: Seq<char>, t: Seq<char>) -> bool {
    t.len() <= s.len() && s.subrange(s.len() - t.len(), s.len() as int) == t
}

/// `s` starts with `t`.
pub open spec fn starts_with(s: Seq<char>, t: Seq<char>) -> bool {
    t.len() <= s.len() && s.subrange(0, t.len() as int) == t
}

/// A position name says where text goes: a name ending in `left` puts it
/// at the left margin and one ending in `right` at the right margin (else
/// it is centred across), a name starting with `top` puts it at the top
/// margin and one starting with `bottom` at the bottom margin (else it is
/// centred down).
pub proof fn lemma_position_names_place_text(s: Seq<char>)
    requires
        position_named(s) is Some,
    ensures
        ends_with(s, "left"@) <==> text_xy(position_named(s)->0).0 == "10"@,
        ends_with(s, "right"@) <==> text_xy(position_named(s)->0).0 == "w-text_w-10"@,
        starts_with(s, "top"@) <==> text_xy(position_named(s)->0).1 == "10"@,
        starts_with(s, "bottom"@) <==> text_xy(position_named(s)->0).1 == "h-text_h-10"@,
{
    reveal_strlit("center");
    assert("center"@.len() == 6);
    reveal_strlit("top-left");
    assert("top-left"@.len() == 8);
    reveal_strlit("top-right");
    assert("top-right"@.len() == 9);
    reveal_strlit("bottom-left");
    assert("bottom-left"@.len() == 11);
    reveal_strlit("bottom-right");
    assert("bottom-right"@.len() == 12);
    reveal_strlit("top");
    assert("top"@.len() == 3);
    reveal_strlit("bottom");
    assert("bottom"@.len() == 6);
    reveal_strlit("left");
    assert("left"@.len() == 4);
    reveal_strlit("right");
    assert("right"@.len() == 5);
    reveal_strlit("left");
    assert("left"@.len() == 4);
    reveal_strlit("right");
    assert("right"@.len() == 5);
    reveal_strlit("top");
    assert("top"@.len() == 3);
    reveal_strlit("bottom");
    assert("bottom"@.len() == 6);
    reveal_strlit("10");
    assert("10"@.len() == 2);
    reveal_strlit("w-text_w-10");
    assert("w-text_w-10"@.len() == 11);
    reveal_strlit("(w-text_w)/2");
    assert("(w-text_w)/2"@.len() == 12);
    reveal_strlit("h-text_h-10");
    assert("h-text_h-10"@.len() == 11);
    reveal_strlit("(h-text_h)/2");
    assert("(h-text_h)/2"@.len() == 12);
    if s == "center"@ {
        assert("center"@[2] == 'n' && "left"@[0] == 'l');
        assert("center"@.subrange(2, 6)[0] == "center"@[2]);
        assert("center"@[1] == 'e' && "right"@[0] == 'r');
        assert("center"@.subrange(1, 6)[0] == "center"@[1]);
        assert("center"@[0] == 'c' && "top"@[0] == 't');
        assert("center"@.subrange(0, 3)[0] == "center"@[0]);
        assert("center"@[0] == 'c' && "bottom"@[0] == 'b');
        assert("center"@.subrange(0, 6)[0] == "center"@[0]);
    } else if s == "top-left"@ {
        assert("top-left"@.subrange(4, 8) =~= "left"@);
        assert("top-left"@[3] == '-' && "right"@[0] == 'r');
        assert("top-left"@.subrange(3, 8)[0] == "top-left"@[3]);
        assert("top-left"@.subrange(0, 3) =~= "top"@);
        assert("top-left"@[0] == 't' && "bottom"@[0] == 'b');
        assert("top-left"@.subrange(0, 6)[0] == "top-left"@[0]);
    } else if s == "top-right"@ {
        assert("top-right"@[5] == 'i' && "left"@[0] == 'l');
        assert("top-right"@.subrange(5, 9)[0] == "top-right"@[5]);
        assert("top-right"@.subrange(4, 9) =~= "right"@);
        assert("top-right"@.subrange(0, 3) =~= "top"@);
        assert("top-right"@[0] == 't' && "bottom"@[0] == 'b');
        assert("top-right"@.subrange(0, 6)[0] == "top-right"@[0]);
    } else if s == "bottom-left"@ {
        assert("bottom-left"@.subrange(7, 11) =~= "left"@);
        assert("bottom-left"@[6] == '-' && "right"@[0] == 'r');
        assert("bottom-left"@.subrange(6, 11)[0] == "bottom-left"@[6]);
        assert("bottom-left"@[0] == 'b' && "top"@[0] == 't');
        assert("bottom-left"@.subrange(0, 3)[0] == "bottom-left"@[0]);
        assert("bottom-left"@.subrange(0, 6) =~= "bottom"@);
    } else if s == "bottom-right"@ {
        assert("bottom-right"@[8] == 'i' && "left"@[0] == 'l');
        assert("bottom-right"@.subrange(8, 12)[0] == "bottom-right"@[8]);
        assert("bottom-right"@.subrange(7, 12) =~= "right"@);
        assert("bottom-right"@[0] == 'b' && "top"@[0] == 't');
        assert("bottom-right"@.subrange(0, 3)[0] == "bottom-right"@[0]);
        assert("bottom-right"@.subrange(0, 6) =~= "bottom"@);
    } else if s == "top"@ {
        assert("top"@.subrange(0, 3) =~= "top"@);
    } else if s == "bottom"@ {
        assert("bottom"@[2] == 't' && "left"@[0] == 'l');
        assert("bottom"@.subrange(2, 6)[0] == "bottom"@[2]);
        assert("bottom"@[1] == 'o' && "right"@[0] == 'r');
        assert("bottom"@.subrange(1, 6)[0] == "bottom"@[1]);
        assert("bottom"@[0] == 'b' && "top"@[0] == 't');
        assert("bottom"@.subrange(0, 3)[0] == "bottom"@[0]);
        assert("bottom"@.subrange(0, 6) =~= "bottom"@);
    } else if s == "left"@ {
        assert("left"@.subrange(0, 4) =~= "left"@);
        assert("left"@[0] == 'l' && "top"@[0] == 't');
        assert("left"@.subrange(0, 3)[0] == "left"@[0]);
    } else if s == "right"@ {
        assert("right"@[1] == 'i' && "left"@[0] == 'l');
        assert("right"@.subrange(1, 5)[0] == "right"@[1]);
        assert("right"@.subrange(0, 5) =~= "right"@);
        assert("right"@[0] == 'r' && "top"@[0] == 't');
        assert("right"@.subrange(0, 3)[0] == "right"@[0]);
    }
}

/// No two names denote the same position.
pub proof fn lemma_position_names_distinct(a: Seq<char>, b: Seq<char>)
    requires
        position_named(a) is Some,
        position_named(a) == position_named(b),
    ensures
        a == b,
{
}

/// The words `true` and `false`, and no others, lex to booleans, each to
/// its own value; a word that lexes to an identifier carries that word.
pub proof fn lemma_boolean_words(w: Seq<char>, b: bool)
    ensures
        word_kind(w) == KindView::BoolLit(b) <==> w == (if b { "true"@ } else { "false"@ }),
        word_kind(w) matches KindView::Ident(x) ==> x == w,
{
    reveal_strlit("project");
    assert("project"@.len() == 7);
    reveal_strlit("asset");
    assert("asset"@.len() == 5);
    reveal_strlit("timeline");
    assert("timeline"@.len() == 8);
    reveal_strlit("track");
    assert("track"@.len() == 5);
    reveal_strlit("clip");
    assert("clip"@.len() == 4);
    reveal_strlit("text");
    assert("text"@.len() == 4);
    reveal_strlit("transition");
    assert("transition"@.len() == 10);
    reveal_strlit("let");
    assert("let"@.len() == 3);
    reveal_strlit("include");
    assert("include"@.len() == 7);
    reveal_strlit("video");
    assert("video"@.len() == 5);
    reveal_strlit("audio");
    assert("audio"@.len() == 5);
    reveal_strlit("image");
    assert("image"@.len() == 5);
    reveal_strlit("true");
    assert("true"@.len() == 4);
    reveal_strlit("false");
    assert("false"@.len() == 5);
    if w == "true"@ {
        assert("true"@[0] == 't' && "clip"@[0] == 'c');
        assert("true"@[1] == 'r' && "text"@[1] == 'e');
    } else if w == "false"@ {
        assert("false"@[0] == 'f' && "asset"@[0] == 'a');
        assert("false"@[0] == 'f' && "track"@[0] == 't');
        assert("false"@[0] == 'f' && "video"@[0] == 'v');
        assert("false"@[0] == 'f' && "audio"@[0] == 'a');
        assert("false"@[0] == 'f' && "image"@[0] == 'i');
    }
}

/// A track is of the kind its kind word names: `video`, `audio` and `text`
/// give video, audio and text tracks, and the word `overlay` an overlay
/// track.
pub proof fn lemma_track_kind_named(ts: Toks, i: int)
    ensures
        p_track(ts, i) matches Ok((t, j)) ==> {
            &&& (t.0 == TrackKind::Video <==> kind_at(ts, i + 1) == KindView::Video)
            &&& (t.0 == TrackKind::Audio <==> kind_at(ts, i + 1) == KindView::Audio)
            &&& (t.0 == TrackKind::Text <==> kind_at(ts, i + 1) == KindView::Text)
            &&& (t.0 == TrackKind::Overlay <==> kind_at(ts, i + 1) == KindView::Ident("overlay"@))
        },
{
    reveal(p_track);
}

/// Values past the last header have no effect on the override lines.
proof fn lemma_overrides_ignore_extra(headers: Seq<Seq<char>>, record: Seq<Seq<char>>, v: Seq<char>)
    requires
        headers.len() <= record.len(),
    ensures
        overrides(headers, record.push(v)) == overrides(headers, record),
    decreases headers.len(),
{
    if headers.len() > 0 {
        lemma_overrides_ignore_extra(headers.drop_last(), record, v);
        assert(record.push(v)[headers.len() - 1] == record[headers.len() - 1]);
    }
}

/// Each column of a row sets the variable of its header to the row's value
/// in that same column: a further column with header `h` and value `v`
/// adds the line `let h = "v"` after the lines of the columns before it,
/// and a further header that the row has no value for adds no line.
pub proof fn lemma_batch_columns(headers: Seq<Seq<char>>, record: Seq<Seq<char>>, h: Seq<char>, v: Seq<char>)
    ensures
        headers.len() == record.len() ==> overrides(headers.push(h), record.push(v)) == overrides(headers, record)
            + "let "@ + h + " = \""@ + v + "\"\n"@,
        record.len() <= headers.len() ==> overrides(headers.push(h), record) == overrides(headers, record),
{
    assert(headers.push(h).drop_last() =~= headers);
    if headers.len() == record.len() {
        lemma_overrides_ignore_extra(headers, record, v);
    }
}

} // verus!
