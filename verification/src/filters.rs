//! The filters that the graph builder offers: trimming, audio, color,
//! transforms, effects, text and composition. Each adds its filters to the
//! graph and returns the label of the stream it produces.
use vstd::prelude::*;
use vstd::arithmetic::power2::{lemma2_to64, lemma_pow2_strictly_increases, lemma_pow2_unfold, pow2};
use crate::filter_graph::{g_add, g_binary, g_label, g_source, g_unary, label, texts, FilterGraph, GraphView};
use crate::fixed::{fixed_text, tdiv, Fixed, SCALE};
use crate::split::{chars_between, find_char_from, index_of, split_chars};
use crate::split::split_on;
use crate::text::{chars_of, nat_text, push_nat_text, push_str, string_eq_str, string_from_chars, string_of, string_push};

verus! {

// ---------------------------------------------------------------------------
// Filter texts
// ---------------------------------------------------------------------------

/// The parts joined with `sep` between them.
pub open spec fn join(parts: Seq<Seq<char>>, sep: Seq<char>) -> Seq<char>
    decreases parts.len(),
{
    if parts.len() == 0 {
        Seq::empty()
    } else if parts.len() == 1 {
        parts[0]
    } else {
        join(parts.drop_last(), sep) + sep + parts.last()
    }
}

/// `key` followed by the value, when there is one.
pub open spec fn opt_part(key: Seq<char>, v: Option<Fixed>) -> Seq<Seq<char>> {
    match v {
        Some(x) => seq![key + fixed_text(x.raw as int)],
        None => Seq::empty(),
    }
}

/// A `trim` or `atrim` filter with the given bounds, then a timestamp reset
/// by `reset`.
pub open spec fn trim_text(name: Seq<char>, from: Option<Fixed>, to: Option<Fixed>, reset: Seq<char>) -> Seq<char> {
    let parts = opt_part("start="@, from) + opt_part("end="@, to);
    (if parts.len() == 0 { name } else { name + "="@ + join(parts, ":"@) }) + reset
}

/// The `eq` filter with the color settings that are given.
pub open spec fn eq_text(b: Option<Fixed>, c: Option<Fixed>, s: Option<Fixed>) -> Seq<char> {
    "eq="@ + join(opt_part("brightness="@, b) + opt_part("contrast="@, c) + opt_part("saturation="@, s), ":"@)
}

/// `text` with each `'` replaced by `'\''`.
pub open spec fn escape_quotes(s: Seq<char>) -> Seq<char>
    decreases s.len(),
{
    if s.len() == 0 {
        s
    } else {
        escape_quotes(s.drop_last()) + (if s.last() == '\'' { "'\\''"@ } else { seq![s.last()] })
    }
}

/// The `drawtext` filter.
pub open spec fn drawtext_text(
    text: Seq<char>,
    font: Seq<char>,
    size: u32,
    color: Seq<char>,
    x: Seq<char>,
    y: Seq<char>,
    start: Fixed,
    end: Fixed,
    alpha: Option<Seq<char>>,
) -> Seq<char> {
    "drawtext=text='"@ + escape_quotes(text) + "':fontfile="@ + font + ":fontsize="@ + nat_text(size as nat)
        + ":fontcolor="@ + color + ":x="@ + x + ":y="@ + y + ":enable='between(t,"@ + fixed_text(start.raw as int)
        + ","@ + fixed_text(end.raw as int) + ")'"@ + match alpha {
        Some(a) => ":alpha='"@ + a + "'"@,
        None => Seq::empty(),
    }
}

/// `s` cut at its first `c`: the part before and the part after, or `s`
/// alone when it has no `c`, as `splitn(2, c)` gives it.
pub open spec fn split_once(s: Seq<char>, c: char) -> Seq<Seq<char>> {
    let i = index_of(s, c) as int;
    if i < s.len() {
        seq![s.take(i), s.skip(i + 1)]
    } else {
        seq![s]
    }
}

/// The `crop` filter for a `WxH+X+Y` specification; a specification of
/// another shape is passed through with offset `0:0`.
pub open spec fn crop_text(spec: Seq<char>) -> Seq<char> {
    let parts = split_once(spec, '+');
    let wh_xy = if parts.len() == 2 {
        let wh = split_on(parts[0], 'x');
        let xy = split_once(parts[1], '+');
        if wh.len() == 2 && xy.len() == 2 {
            (wh[0] + ":"@ + wh[1], xy[0] + ":"@ + xy[1])
        } else {
            (spec, "0:0"@)
        }
    } else {
        (spec, "0:0"@)
    };
    "crop="@ + wh_xy.0 + ":"@ + wh_xy.1
}

/// The flip filters for a mode.
pub open spec fn flip_text(mode: Seq<char>) -> Seq<char> {
    if mode == "vertical"@ {
        "vflip"@
    } else if mode == "both"@ {
        "hflip,vflip"@
    } else {
        "hflip"@
    }
}

/// π in units of 10^-18, rounded down.
pub open spec fn pi18() -> int {
    3_141_592_653_589_793_238
}

/// `degrees` in radians.
pub open spec fn radians(degrees: Fixed) -> Fixed {
    Fixed::of(tdiv(degrees.raw * pi18(), 180_000_000_000_000_000_000))
}

/// The vignette angle for a strength from 0 to 1: from π/5 up to π/2.
pub open spec fn vignette_angle(strength: Fixed) -> Fixed {
    Fixed::of(tdiv(628_318_530_717_958_647 + tdiv(strength.raw * 942_477_796_076_937_972, SCALE as int), SCALE as int))
}

/// The box blur radius for a strength from 0 to 100: a fifth of it, kept
/// within 1 to 20 and rounded down.
pub open spec fn blur_radius(strength: Fixed) -> nat {
    let q = tdiv(strength.raw as int, 5);
    let c = if q < SCALE { SCALE as int } else if q > 20 * SCALE { 20 * SCALE } else { q };
    (c / (SCALE as int)) as nat
}

/// `x` billionths taken to a whole number as `as` does for a float: rounded
/// toward zero and kept within `0..=max`.
pub open spec fn whole_upto(x: int, max: int) -> nat {
    if x <= 0 {
        0
    } else if x / (SCALE as int) > max {
        max as nat
    } else {
        (x / (SCALE as int)) as nat
    }
}

/// The noise strength for a grain amount from 0 to 1.
pub open spec fn grain_strength(amount: Fixed) -> nat {
    whole_upto(amount.raw * 100, u32::MAX as int)
}

/// The frame count of `duration` seconds at `fps`.
pub open spec fn frames_of(duration: Fixed, fps: u32) -> nat {
    whole_upto(duration.raw * fps, u64::MAX as int)
}

/// The zoompan offset expression along one axis (`iw` or `ih`).
pub open spec fn pan_text(dim: Seq<char>, pan: Option<Fixed>) -> Seq<char> {
    let p = match pan {
        Some(x) => x.raw,
        None => 0,
    };
    if p == 0 {
        dim + "/2-("@ + dim + "/zoom/2)"@
    } else {
        dim + "/2-("@ + dim + "/zoom/2)"@ + "+"@ + dim + "*"@ + fixed_text(p as int) + "*(1-1/zoom)/2"@
    }
}

/// The zoom expression of zoompan over the frame number `on`: from 1 up
/// to the peak by frame `f1`, the peak up to frame `f2`, then back down over
/// `f3` frames.
pub open spec fn zoom_curve(f1: Seq<char>, f2: Seq<char>, f3: Seq<char>, pk: Seq<char>, pm1: Seq<char>) -> Seq<char> {
    "if(lt(on\\,"@ + f1 + ")\\,1+on/"@ + f1 + "*"@ + pm1 + "\\,if(lt(on\\,"@ + f2 + ")\\,"@ + pk + "\\,"@ + pk + "-(on-"@ + f2
        + ")/"@ + f3 + "*"@ + pm1 + "))"@
}

/// The zoompan filter: zoom in to `peak` over the first 30% of the frames,
/// hold it up to 70%, and zoom back out.
pub open spec fn zoompan_text(
    peak: Fixed,
    duration: Fixed,
    width: u32,
    height: u32,
    fps: u32,
    pan_x: Option<Fixed>,
    pan_y: Option<Fixed>,
) -> Seq<char> {
    let total = frames_of(duration, fps);
    let f1 = nat_text(total * 3 / 10);
    let f2 = nat_text(total * 7 / 10);
    let f3 = nat_text((total - total * 7 / 10) as nat);
    let pm1 = fixed_text(Fixed::of(peak.raw - SCALE).raw as int);
    let pk = fixed_text(peak.raw as int);
    let z = zoom_curve(f1, f2, f3, pk, pm1);
    "zoompan=z='"@ + z + "':x='"@ + pan_text("iw"@, pan_x) + "':y='"@ + pan_text("ih"@, pan_y) + "':d=1:s="@
        + nat_text(width as nat) + "x"@ + nat_text(height as nat) + ":fps="@ + nat_text(fps as nat)
}

/// The inputs of a concat filter: video and audio of each segment in turn.
pub open spec fn interleave(v: Seq<Seq<char>>, a: Seq<Seq<char>>, n: nat) -> Seq<Seq<char>>
    decreases n,
{
    if n == 0 {
        Seq::empty()
    } else {
        interleave(v, a, (n - 1) as nat) + seq![v[n - 1], a[n - 1]]
    }
}

/// The volume filter.
pub open spec fn volume_text(volume: Fixed) -> Seq<char> {
    "volume="@ + fixed_text(volume.raw as int)
}

/// An audio fade filter.
pub open spec fn afade_text(fade_type: Seq<char>, start: Fixed, duration: Fixed) -> Seq<char> {
    "afade=t="@ + fade_type + ":st="@ + fixed_text(start.raw as int) + ":d="@ + fixed_text(duration.raw as int)
}

/// The audio cross-fade filter.
pub open spec fn acrossfade_text(duration: Fixed) -> Seq<char> {
    "acrossfade=d="@ + fixed_text(duration.raw as int) + ":c1=tri:c2=tri"@
}

/// The silent audio source.
pub open spec fn silence_text(duration: Fixed) -> Seq<char> {
    "aevalsrc=0:s=44100:d="@ + fixed_text(duration.raw as int)
}

/// The box blur filter.
pub open spec fn blur_text(strength: Fixed) -> Seq<char> {
    "boxblur="@ + nat_text(blur_radius(strength)) + ":"@ + nat_text(blur_radius(strength))
}

/// The opacity filter.
pub open spec fn opacity_text(opacity: Fixed) -> Seq<char> {
    "format=rgba,colorchannelmixer=aa="@ + fixed_text(opacity.raw as int)
}

/// The vignette filter.
pub open spec fn vignette_text(strength: Fixed) -> Seq<char> {
    "vignette=angle="@ + fixed_text(vignette_angle(strength).raw as int)
}

/// The film grain filter.
pub open spec fn grain_text(amount: Fixed) -> Seq<char> {
    "noise=alls="@ + nat_text(grain_strength(amount)) + ":allf=t"@
}

/// The sharpening filter.
pub open spec fn sharpen_text(amount: Fixed) -> Seq<char> {
    "unsharp=5:5:"@ + fixed_text(amount.raw as int) + ":5:5:0"@
}

/// The rotation filter.
pub open spec fn rotate_text(degrees: Fixed) -> Seq<char> {
    "rotate="@ + fixed_text(radians(degrees).raw as int) + ":fillcolor=black@0:ow=rotw("@ + fixed_text(radians(degrees).raw as int) + "):oh=roth("@ + fixed_text(radians(degrees).raw as int) + ")"@
}

/// The speed filter.
pub open spec fn speed_text(multiplier: Fixed) -> Seq<char> {
    "setpts=PTS/"@ + fixed_text(multiplier.raw as int)
}

/// The video cross-fade filter.
pub open spec fn xfade_text(transition: Seq<char>, duration: Fixed, offset: Fixed) -> Seq<char> {
    "xfade=transition="@ + transition + ":duration="@ + fixed_text(duration.raw as int) + ":offset="@ + fixed_text(offset.raw as int)
}

/// The overlay filter, enabled between two times.
pub open spec fn overlay_text(x: Seq<char>, y: Seq<char>, start: Fixed, end: Fixed) -> Seq<char> {
    "overlay=x="@ + x + ":y="@ + y + ":enable='between(t,"@ + fixed_text(start.raw as int) + ","@ + fixed_text(end.raw as int) + ")'"@
}

/// The scale filter.
pub open spec fn scale_text(w: Seq<char>, h: Seq<char>) -> Seq<char> {
    "scale="@ + w + ":"@ + h
}

/// The frame-holding filter.
pub open spec fn tpad_text(stop_duration: Fixed) -> Seq<char> {
    "tpad=stop_mode=clone:stop_duration="@ + fixed_text(stop_duration.raw as int)
}

/// The plain color source.
pub open spec fn color_source_text(duration: Fixed, width: u32, height: u32, fps: u32, color: Seq<char>) -> Seq<char> {
    "color=c="@ + color + ":s="@ + nat_text(width as nat) + "x"@ + nat_text(height as nat) + ":r="@ + nat_text(fps as nat) + ":d="@ + fixed_text(duration.raw as int)
}

/// The letterbox padding filter.
pub open spec fn pad_text(width: u32, height: u32, color: Seq<char>) -> Seq<char> {
    "pad="@ + nat_text(width as nat) + ":"@ + nat_text(height as nat) + ":(ow-iw)/2:(oh-ih)/2:color="@ + color
}

// ---------------------------------------------------------------------------
// Graph steps of the builders that hand out more than one label
// ---------------------------------------------------------------------------

/// The atempo chain: halving steps while the tempo (in billionths) is
/// below 0.5.
pub open spec fn atempo_low(g: GraphView, cur: Seq<char>, rem: int) -> (GraphView, Seq<char>, int)
    decreases (if rem < 500_000_000 { 500_000_000 - rem } else { 0 }),
{
    if 0 < rem < 500_000_000 {
        let (g1, out) = g_unary(g, "at"@, cur, "atempo=0.5"@);
        atempo_low(g1, out, rem * 2)
    } else {
        (g, cur, rem)
    }
}

/// The atempo chain: steps of 100 while the tempo (in billionths) is above
/// 100.
pub open spec fn atempo_high(g: GraphView, cur: Seq<char>, rem: int) -> (GraphView, Seq<char>, int)
    decreases rem,
{
    if rem > 100_000_000_000 {
        let (g1, out) = g_unary(g, "at"@, cur, "atempo=100.0"@);
        atempo_high(g1, out, rem / 100)
    } else {
        (g, cur, rem)
    }
}

/// The whole atempo chain for `tempo`.
pub open spec fn g_atempo(g: GraphView, input: Seq<char>, tempo: Fixed) -> (GraphView, Seq<char>) {
    let (g1, c1, r1) = atempo_low(g, input, tempo.raw as int);
    let (g2, c2, r2) = atempo_high(g1, c1, r1);
    g_unary(g2, "at"@, c2, "atempo="@ + fixed_text(r2))
}

/// `s` with its first `#` replaced by `0x`.
pub open spec fn hex_prefixed(s: Seq<char>) -> Seq<char> {
    let i = index_of(s, '#') as int;
    if i < s.len() {
        s.take(i) + "0x"@ + s.skip(i + 1)
    } else {
        s
    }
}

/// A chroma key for a `#RRGGBB` color.
pub open spec fn g_chromakey_hex(g: GraphView, input: Seq<char>, hex: Seq<char>) -> (GraphView, Seq<char>) {
    g_unary(g, "ck"@, input, "chromakey="@ + hex_prefixed(hex) + ":0.1:0.2"@)
}

/// A chroma key for a named color (`green`, `blue`) or a `#RRGGBB` one;
/// another name keys green. A `#` color is keyed under a second label, the
/// first one being left unused.
pub open spec fn g_chromakey(g: GraphView, input: Seq<char>, color: Seq<char>) -> (GraphView, Seq<char>) {
    if color == "blue"@ {
        g_unary(g, "ck"@, input, "chromakey=0x0000FF:0.1:0.2"@)
    } else if color != "green"@ && color.len() > 0 && color[0] == '#' {
        let (g1, _unused) = g_label(g, "ck"@);
        g_chromakey_hex(g1, input, color)
    } else {
        g_unary(g, "ck"@, input, "chromakey=0x00FF00:0.1:0.2"@)
    }
}

/// The concat filter over `n` segments.
pub open spec fn g_concat(g: GraphView, v: Seq<Seq<char>>, a: Seq<Seq<char>>, n: nat) -> (GraphView, (Seq<char>, Seq<char>)) {
    let (g1, vout) = g_label(g, "outv"@);
    let (g2, aout) = g_label(g1, "outa"@);
    (g_add(g2, interleave(v, a, n), "concat=n="@ + nat_text(n) + ":v=1:a=1"@, seq![vout, aout]), (vout, aout))
}

/// A mix of the streams `inputs`, `n` of them, to a new label.
pub open spec fn g_amix(g: GraphView, inputs: Seq<Seq<char>>, n: nat) -> (GraphView, Seq<char>) {
    let (g1, l) = g_label(g, "amx"@);
    (g_add(g1, inputs, "amix=inputs="@ + nat_text(n) + ":duration=longest"@, seq![l]), l)
}

/// Appends `x` as a decimal number to `out`.
pub fn push_fixed(out: &mut String, x: Fixed)
    ensures
        final(out)@ == old(out)@ + fixed_text(x.raw as int),
{
    let t = x.text();
    push_str(out, t.as_str());
}

/// Appends `n` in decimal to `out`.
pub fn push_u64(out: &mut String, n: u64)
    ensures
        final(out)@ == old(out)@ + nat_text(n as nat),
{
    push_nat_text(out, n as u128);
}

impl FilterGraph {
    /// A trim + setpts filter chain for a video stream.
    pub fn add_trim(&mut self, input: &str, from: Option<Fixed>, to: Option<Fixed>) -> (out: String)
        requires
            old(self)@.counter < usize::MAX,
        ensures
            (final(self)@, out@) == g_unary(old(self)@, "tv"@, input@, trim_text("trim"@, from, to, ",setpts=PTS-STARTPTS"@)),
    {
        let mut e = string_of("trim");
        if from.is_some() || to.is_some() {
            push_str(&mut e, "=");
        }
        if let Some(f) = from {
            push_str(&mut e, "start=");
            push_fixed(&mut e, f);
        }
        if let Some(t) = to {
            if from.is_some() {
                push_str(&mut e, ":");
            }
            push_str(&mut e, "end=");
            push_fixed(&mut e, t);
        }
        push_str(&mut e, ",setpts=PTS-STARTPTS");
        proof {
            let parts = opt_part("start="@, from) + opt_part("end="@, to);
            let mid = match (from, to) {
                (None, None) => Seq::<char>::empty(),
                (Some(f), None) => "="@ + "start="@ + fixed_text(f.raw as int),
                (None, Some(t)) => "="@ + "end="@ + fixed_text(t.raw as int),
                (Some(f), Some(t)) => "="@ + "start="@ + fixed_text(f.raw as int) + ":"@ + "end="@ + fixed_text(t.raw as int),
            };
            match (from, to) {
                (Some(f), Some(t)) => {
                    assert(parts.drop_last() =~= seq!["start="@ + fixed_text(f.raw as int)]);
                    assert(join(parts.drop_last(), ":"@) == parts.drop_last()[0]);
                    assert(parts.last() =~= "end="@ + fixed_text(t.raw as int));
                },
                (Some(f), None) => {
                    assert(parts =~= seq!["start="@ + fixed_text(f.raw as int)]);
                },
                (None, Some(t)) => {
                    assert(parts =~= seq!["end="@ + fixed_text(t.raw as int)]);
                },
                (None, None) => {
                    assert(parts =~= Seq::<Seq<char>>::empty());
                },
            }
            assert(trim_text("trim"@, from, to, ",setpts=PTS-STARTPTS"@) =~= "trim"@ + mid + ",setpts=PTS-STARTPTS"@);
        }
        assert(e@ =~= trim_text("trim"@, from, to, ",setpts=PTS-STARTPTS"@));
        self.unary("tv", input, e.as_str())
    }

    /// An atrim + asetpts filter chain for an audio stream.
    pub fn add_atrim(&mut self, input: &str, from: Option<Fixed>, to: Option<Fixed>) -> (out: String)
        requires
            old(self)@.counter < usize::MAX,
        ensures
            (final(self)@, out@) == g_unary(old(self)@, "ta"@, input@, trim_text("atrim"@, from, to, ",asetpts=PTS-STARTPTS"@)),
    {
        let mut e = string_of("atrim");
        if from.is_some() || to.is_some() {
            push_str(&mut e, "=");
        }
        if let Some(f) = from {
            push_str(&mut e, "start=");
            push_fixed(&mut e, f);
        }
        if let Some(t) = to {
            if from.is_some() {
                push_str(&mut e, ":");
            }
            push_str(&mut e, "end=");
            push_fixed(&mut e, t);
        }
        push_str(&mut e, ",asetpts=PTS-STARTPTS");
        proof {
            let parts = opt_part("start="@, from) + opt_part("end="@, to);
            let mid = match (from, to) {
                (None, None) => Seq::<char>::empty(),
                (Some(f), None) => "="@ + "start="@ + fixed_text(f.raw as int),
                (None, Some(t)) => "="@ + "end="@ + fixed_text(t.raw as int),
                (Some(f), Some(t)) => "="@ + "start="@ + fixed_text(f.raw as int) + ":"@ + "end="@ + fixed_text(t.raw as int),
            };
            match (from, to) {
                (Some(f), Some(t)) => {
                    assert(parts.drop_last() =~= seq!["start="@ + fixed_text(f.raw as int)]);
                    assert(join(parts.drop_last(), ":"@) == parts.drop_last()[0]);
                    assert(parts.last() =~= "end="@ + fixed_text(t.raw as int));
                },
                (Some(f), None) => {
                    assert(parts =~= seq!["start="@ + fixed_text(f.raw as int)]);
                },
                (None, Some(t)) => {
                    assert(parts =~= seq!["end="@ + fixed_text(t.raw as int)]);
                },
                (None, None) => {
                    assert(parts =~= Seq::<Seq<char>>::empty());
                },
            }
            assert(trim_text("atrim"@, from, to, ",asetpts=PTS-STARTPTS"@) =~= "atrim"@ + mid + ",asetpts=PTS-STARTPTS"@);
        }
        assert(e@ =~= trim_text("atrim"@, from, to, ",asetpts=PTS-STARTPTS"@));
        self.unary("ta", input, e.as_str())
    }

    /// A volume filter on an audio stream.
    pub fn add_volume(&mut self, input: &str, volume: Fixed) -> (out: String)
        requires
            old(self)@.counter < usize::MAX,
        ensures
            (final(self)@, out@) == g_unary(old(self)@, "vol"@, input@, volume_text(volume)),
    {
        let mut e = string_of("volume=");
        push_fixed(&mut e, volume);
        assert(e@ =~= volume_text(volume));
        self.unary("vol", input, e.as_str())
    }

    /// An audio fade; `fade_type` is "in" or "out".
    pub fn add_afade(&mut self, input: &str, fade_type: &str, start: Fixed, duration: Fixed) -> (out: String)
        requires
            old(self)@.counter < usize::MAX,
        ensures
            (final(self)@, out@) == g_unary(old(self)@, "af"@, input@, afade_text(fade_type@, start, duration)),
    {
        let mut e = string_of("afade=t=");
        push_str(&mut e, fade_type);
        push_str(&mut e, ":st=");
        push_fixed(&mut e, start);
        push_str(&mut e, ":d=");
        push_fixed(&mut e, duration);
        assert(e@ =~= afade_text(fade_type@, start, duration));
        self.unary("af", input, e.as_str())
    }

    /// A cross-fade between two audio streams.
    pub fn add_acrossfade(&mut self, in1: &str, in2: &str, duration: Fixed) -> (out: String)
        requires
            old(self)@.counter < usize::MAX,
        ensures
            (final(self)@, out@) == g_binary(old(self)@, "axf"@, in1@, in2@, acrossfade_text(duration)),
    {
        let mut e = string_of("acrossfade=d=");
        push_fixed(&mut e, duration);
        push_str(&mut e, ":c1=tri:c2=tri");
        assert(e@ =~= acrossfade_text(duration));
        self.binary("axf", in1, in2, e.as_str())
    }

    /// A silent audio stream of the given duration.
    pub fn add_silence(&mut self, duration: Fixed) -> (out: String)
        requires
            old(self)@.counter < usize::MAX,
        ensures
            (final(self)@, out@) == g_source(old(self)@, "sil"@, silence_text(duration)),
    {
        let mut e = string_of("aevalsrc=0:s=44100:d=");
        push_fixed(&mut e, duration);
        assert(e@ =~= silence_text(duration));
        self.source("sil", e.as_str())
    }

    /// Audio played backwards.
    pub fn add_areverse(&mut self, input: &str) -> (out: String)
        requires
            old(self)@.counter < usize::MAX,
        ensures
            (final(self)@, out@) == g_unary(old(self)@, "arev"@, input@, "areverse"@),
    {
        let e = string_of("areverse");
        assert(e@ =~= "areverse"@);
        self.unary("arev", input, e.as_str())
    }

    /// Audio loudness normalization.
    pub fn add_loudnorm(&mut self, input: &str) -> (out: String)
        requires
            old(self)@.counter < usize::MAX,
        ensures
            (final(self)@, out@) == g_unary(old(self)@, "ln"@, input@, "loudnorm"@),
    {
        let e = string_of("loudnorm");
        assert(e@ =~= "loudnorm"@);
        self.unary("ln", input, e.as_str())
    }

    /// A box blur; `strength` from 0 to 100 maps to the radius.
    pub fn add_blur(&mut self, input: &str, strength: Fixed) -> (out: String)
        requires
            old(self)@.counter < usize::MAX,
        ensures
            (final(self)@, out@) == g_unary(old(self)@, "bl"@, input@, blur_text(strength)),
    {
        let q: i64 = strength.raw / 5;
        assert(q == tdiv(strength.raw as int, 5));
        let c: i64 = if q < 1_000_000_000 { 1_000_000_000 } else if q > 20_000_000_000 { 20_000_000_000 } else { q };
        let r: u64 = (c / 1_000_000_000) as u64;
        let mut e = string_of("boxblur=");
        push_u64(&mut e, r);
        push_str(&mut e, ":");
        push_u64(&mut e, r);
        assert(e@ =~= blur_text(strength));
        self.unary("bl", input, e.as_str())
    }

    /// Opacity through the alpha channel.
    pub fn add_opacity(&mut self, input: &str, opacity: Fixed) -> (out: String)
        requires
            old(self)@.counter < usize::MAX,
        ensures
            (final(self)@, out@) == g_unary(old(self)@, "opc"@, input@, opacity_text(opacity)),
    {
        let mut e = string_of("format=rgba,colorchannelmixer=aa=");
        push_fixed(&mut e, opacity);
        assert(e@ =~= opacity_text(opacity));
        self.unary("opc", input, e.as_str())
    }

    /// A vignette; `strength` from 0 to 1.
    pub fn add_vignette(&mut self, input: &str, strength: Fixed) -> (out: String)
        requires
            old(self)@.counter < usize::MAX,
        ensures
            (final(self)@, out@) == g_unary(old(self)@, "vig"@, input@, vignette_text(strength)),
    {
        let t: i128 = (strength.raw as i128) * 942_477_796_076_937_972;
        let t2: i128 = t / 1_000_000_000;
        assert(t2 == tdiv(strength.raw * 942_477_796_076_937_972, SCALE as int));
        let a: i128 = (628_318_530_717_958_647 + t2) / 1_000_000_000;
        assert(a == tdiv(628_318_530_717_958_647 + t2, SCALE as int));
        let angle = Fixed::from_wide(a);
        let mut e = string_of("vignette=angle=");
        push_fixed(&mut e, angle);
        assert(e@ =~= vignette_text(strength));
        self.unary("vig", input, e.as_str())
    }

    /// Film grain through the noise filter; `amount` from 0 to 1.
    pub fn add_grain(&mut self, input: &str, amount: Fixed) -> (out: String)
        requires
            old(self)@.counter < usize::MAX,
        ensures
            (final(self)@, out@) == g_unary(old(self)@, "grn"@, input@, grain_text(amount)),
    {
        let x: i128 = (amount.raw as i128) * 100;
        let n: u64 = if x <= 0 {
            0
        } else if x / 1_000_000_000 > 4_294_967_295 {
            4_294_967_295
        } else {
            (x / 1_000_000_000) as u64
        };
        let mut e = string_of("noise=alls=");
        push_u64(&mut e, n);
        push_str(&mut e, ":allf=t");
        assert(e@ =~= grain_text(amount));
        self.unary("grn", input, e.as_str())
    }

    /// Sharpening through the unsharp filter.
    pub fn add_sharpen(&mut self, input: &str, amount: Fixed) -> (out: String)
        requires
            old(self)@.counter < usize::MAX,
        ensures
            (final(self)@, out@) == g_unary(old(self)@, "shp"@, input@, sharpen_text(amount)),
    {
        let mut e = string_of("unsharp=5:5:");
        push_fixed(&mut e, amount);
        push_str(&mut e, ":5:5:0");
        assert(e@ =~= sharpen_text(amount));
        self.unary("shp", input, e.as_str())
    }

    /// Single-pass video stabilization.
    pub fn add_deshake(&mut self, input: &str) -> (out: String)
        requires
            old(self)@.counter < usize::MAX,
        ensures
            (final(self)@, out@) == g_unary(old(self)@, "stb"@, input@, "deshake"@),
    {
        let e = string_of("deshake");
        assert(e@ =~= "deshake"@);
        self.unary("stb", input, e.as_str())
    }

    /// A rotation by `degrees`.
    pub fn add_rotate(&mut self, input: &str, degrees: Fixed) -> (out: String)
        requires
            old(self)@.counter < usize::MAX,
        ensures
            (final(self)@, out@) == g_unary(old(self)@, "rot"@, input@, rotate_text(degrees)),
    {
        let p: i128 = (degrees.raw as i128) * 3_141_592_653_589_793_238;
        let q: i128 = p / 180_000_000_000_000_000_000;
        assert(q == tdiv(degrees.raw * pi18(), 180_000_000_000_000_000_000));
        let r = Fixed::from_wide(q);
        let mut e = string_of("rotate=");
        push_fixed(&mut e, r);
        push_str(&mut e, ":fillcolor=black@0:ow=rotw(");
        push_fixed(&mut e, r);
        push_str(&mut e, "):oh=roth(");
        push_fixed(&mut e, r);
        push_str(&mut e, ")");
        assert(e@ =~= rotate_text(degrees));
        self.unary("rot", input, e.as_str())
    }

    /// A flip: horizontal, vertical, or both.
    pub fn add_flip(&mut self, input: &str, mode: &str) -> (out: String)
        requires
            old(self)@.counter < usize::MAX,
        ensures
            (final(self)@, out@) == g_unary(old(self)@, "fl"@, input@, flip_text(mode@)),
    {
        let e = if string_eq_str(&string_of(mode), "vertical") {
            string_of("vflip")
        } else if string_eq_str(&string_of(mode), "both") {
            string_of("hflip,vflip")
        } else {
            string_of("hflip")
        };
        assert(e@ =~= flip_text(mode@));
        self.unary("fl", input, e.as_str())
    }

    /// Video played backwards.
    pub fn add_reverse(&mut self, input: &str) -> (out: String)
        requires
            old(self)@.counter < usize::MAX,
        ensures
            (final(self)@, out@) == g_unary(old(self)@, "rev"@, input@, "reverse"@),
    {
        let e = string_of("reverse");
        assert(e@ =~= "reverse"@);
        self.unary("rev", input, e.as_str())
    }

    /// A speed change through setpts.
    pub fn add_speed(&mut self, input: &str, multiplier: Fixed) -> (out: String)
        requires
            old(self)@.counter < usize::MAX,
        ensures
            (final(self)@, out@) == g_unary(old(self)@, "spd"@, input@, speed_text(multiplier)),
    {
        let mut e = string_of("setpts=PTS/");
        push_fixed(&mut e, multiplier);
        assert(e@ =~= speed_text(multiplier));
        self.unary("spd", input, e.as_str())
    }

    /// Color grading through the eq filter.
    pub fn add_eq(&mut self, input: &str, brightness: Option<Fixed>, contrast: Option<Fixed>, saturation: Option<Fixed>) -> (out: String)
        requires
            old(self)@.counter < usize::MAX,
        ensures
            (final(self)@, out@) == g_unary(old(self)@, "eq"@, input@, eq_text(brightness, contrast, saturation)),
    {
        let mut e = string_of("eq=");
        let mut any = false;
        let ghost start = e@;
        if let Some(b) = brightness {
            push_str(&mut e, "brightness=");
            push_fixed(&mut e, b);
            any = true;
        }
        let ghost p1 = opt_part("brightness="@, brightness);
        assert(e@ =~= start + join(p1, ":"@));
        if let Some(c) = contrast {
            if any {
                push_str(&mut e, ":");
            }
            push_str(&mut e, "contrast=");
            push_fixed(&mut e, c);
            any = true;
        }
        let ghost p2 = p1 + opt_part("contrast="@, contrast);
        proof {
            if p2.len() == 2 {
                assert(p2.drop_last() =~= p1);
            }
        }
        assert(e@ =~= start + join(p2, ":"@));
        if let Some(s) = saturation {
            if any {
                push_str(&mut e, ":");
            }
            push_str(&mut e, "saturation=");
            push_fixed(&mut e, s);
        }
        let ghost p3 = p2 + opt_part("saturation="@, saturation);
        proof {
            if saturation.is_some() && p2.len() > 0 {
                assert(p3.drop_last() =~= p2);
            }
        }
        assert(e@ =~= eq_text(brightness, contrast, saturation));
        self.unary("eq", input, e.as_str())
    }

    /// A cross-fade between two video streams.
    pub fn add_xfade(&mut self, in1: &str, in2: &str, transition: &str, duration: Fixed, offset: Fixed) -> (out: String)
        requires
            old(self)@.counter < usize::MAX,
        ensures
            (final(self)@, out@) == g_binary(old(self)@, "xf"@, in1@, in2@, xfade_text(transition@, duration, offset)),
    {
        let mut e = string_of("xfade=transition=");
        push_str(&mut e, transition);
        push_str(&mut e, ":duration=");
        push_fixed(&mut e, duration);
        push_str(&mut e, ":offset=");
        push_fixed(&mut e, offset);
        assert(e@ =~= xfade_text(transition@, duration, offset));
        self.binary("xf", in1, in2, e.as_str())
    }

    /// An image stream laid over a video stream between two times.
    pub fn add_overlay(&mut self, video: &str, image: &str, x: &str, y: &str, start: Fixed, end: Fixed) -> (out: String)
        requires
            old(self)@.counter < usize::MAX,
        ensures
            (final(self)@, out@) == g_binary(old(self)@, "ov"@, video@, image@, overlay_text(x@, y@, start, end)),
    {
        let mut e = string_of("overlay=x=");
        push_str(&mut e, x);
        push_str(&mut e, ":y=");
        push_str(&mut e, y);
        push_str(&mut e, ":enable='between(t,");
        push_fixed(&mut e, start);
        push_str(&mut e, ",");
        push_fixed(&mut e, end);
        push_str(&mut e, ")'");
        assert(e@ =~= overlay_text(x@, y@, start, end));
        self.binary("ov", video, image, e.as_str())
    }

    /// A scaled stream.
    pub fn add_scale(&mut self, input: &str, w: &str, h: &str) -> (out: String)
        requires
            old(self)@.counter < usize::MAX,
        ensures
            (final(self)@, out@) == g_unary(old(self)@, "sc"@, input@, scale_text(w@, h@)),
    {
        let mut e = string_of("scale=");
        push_str(&mut e, w);
        push_str(&mut e, ":");
        push_str(&mut e, h);
        assert(e@ =~= scale_text(w@, h@));
        self.unary("sc", input, e.as_str())
    }

    /// The last frame held for `stop_duration` seconds.
    pub fn add_tpad(&mut self, input: &str, stop_duration: Fixed) -> (out: String)
        requires
            old(self)@.counter < usize::MAX,
        ensures
            (final(self)@, out@) == g_unary(old(self)@, "tp"@, input@, tpad_text(stop_duration)),
    {
        let mut e = string_of("tpad=stop_mode=clone:stop_duration=");
        push_fixed(&mut e, stop_duration);
        assert(e@ =~= tpad_text(stop_duration));
        self.unary("tp", input, e.as_str())
    }

    /// A plain color video stream (for gaps).
    pub fn add_color_source(&mut self, duration: Fixed, width: u32, height: u32, fps: u32, color: &str) -> (out: String)
        requires
            old(self)@.counter < usize::MAX,
        ensures
            (final(self)@, out@) == g_source(old(self)@, "clr"@, color_source_text(duration, width, height, fps, color@)),
    {
        let mut e = string_of("color=c=");
        push_str(&mut e, color);
        push_str(&mut e, ":s=");
        push_u64(&mut e, width as u64);
        push_str(&mut e, "x");
        push_u64(&mut e, height as u64);
        push_str(&mut e, ":r=");
        push_u64(&mut e, fps as u64);
        push_str(&mut e, ":d=");
        push_fixed(&mut e, duration);
        assert(e@ =~= color_source_text(duration, width, height, fps, color@));
        self.source("clr", e.as_str())
    }

    /// Padding to `width` x `height`, centered (letterbox).
    pub fn add_pad(&mut self, input: &str, width: u32, height: u32, color: &str) -> (out: String)
        requires
            old(self)@.counter < usize::MAX,
        ensures
            (final(self)@, out@) == g_unary(old(self)@, "pad"@, input@, pad_text(width, height, color@)),
    {
        let mut e = string_of("pad=");
        push_u64(&mut e, width as u64);
        push_str(&mut e, ":");
        push_u64(&mut e, height as u64);
        push_str(&mut e, ":(ow-iw)/2:(oh-ih)/2:color=");
        push_str(&mut e, color);
        assert(e@ =~= pad_text(width, height, color@));
        self.unary("pad", input, e.as_str())
    }

    /// A tempo change for audio, chaining atempo filters for tempos beyond
    /// the 0.5 to 100 that one filter supports.
    #[verifier::rlimit(30)]
    pub fn add_atempo(&mut self, input: &str, tempo: Fixed) -> (out: String)
        requires
            tempo.raw > 0,
            old(self)@.counter + 64 <= usize::MAX,
        ensures
            (final(self)@, out@) == g_atempo(old(self)@, input@, tempo),
            final(self)@.counter <= old(self)@.counter + 64,
    {
        let ghost g0 = self@;
        let mut current = string_of(input);
        let mut remaining: i64 = tempo.raw;
        let ghost mut k: nat = 0;
        proof {
            lemma2_to64();
        }
        while remaining < 500_000_000
            invariant
                0 < remaining,
                remaining >= pow2(k),
                k <= 29,
                self@.counter == g0.counter + k,
                g0.counter + 64 <= usize::MAX,
                atempo_low(g0, input@, tempo.raw as int) == atempo_low(self@, current@, remaining as int),
            decreases 29 - k,
        {
            proof {
                lemma2_to64();
                if k >= 29 {
                    if k > 29 {
                        lemma_pow2_strictly_increases(29, k);
                    }
                    assert(false);
                }
                lemma_pow2_unfold(k + 1);
            }
            let out = self.unary("at", current.as_str(), "atempo=0.5");
            current = out;
            remaining = remaining * 2;
            proof {
                k = k + 1;
            }
        }
        let ghost low = atempo_low(g0, input@, tempo.raw as int);
        let ghost mut j: nat = 0;
        while remaining > 100_000_000_000
            invariant
                0 < remaining,
                j <= 4,
                j == 0 ==> remaining <= i64::MAX,
                j == 1 ==> remaining <= 100_000_000_000_000_000,
                j == 2 ==> remaining <= 1_000_000_000_000_000,
                j == 3 ==> remaining <= 10_000_000_000_000,
                j == 4 ==> remaining <= 100_000_000_000,
                self@.counter == g0.counter + k + j,
                k <= 29,
                g0.counter + 64 <= usize::MAX,
                atempo_high(low.0, low.1, low.2) == atempo_high(self@, current@, remaining as int),
            decreases remaining,
        {
            let out = self.unary("at", current.as_str(), "atempo=100.0");
            current = out;
            remaining = remaining / 100;
            proof {
                j = j + 1;
            }
        }
        let mut e = string_of("atempo=");
        push_fixed(&mut e, Fixed { raw: remaining });
        self.unary("at", current.as_str(), e.as_str())
    }

    /// A mix of several audio streams.
    pub fn add_amix(&mut self, inputs: &[String], n: usize) -> (out: String)
        requires
            old(self)@.counter < usize::MAX,
        ensures
            (final(self)@, out@) == g_amix(old(self)@, texts(inputs@), n as nat),
    {
        let out = self.next_label("amx");
        let mut ins: Vec<String> = Vec::new();
        let mut i: usize = 0;
        while i < inputs.len()
            invariant
                i <= inputs@.len(),
                texts(ins@) == texts(inputs@).take(i as int),
            decreases inputs@.len() - i,
        {
            let ghost before = texts(ins@);
            ins.push(inputs[i].clone());
            assert(texts(ins@) =~= before.push(inputs@[i as int]@));
            assert(texts(inputs@).take(i + 1) =~= texts(inputs@).take(i as int).push(inputs@[i as int]@));
            i = i + 1;
        }
        assert(texts(inputs@).take(i as int) =~= texts(inputs@));
        let mut e = string_of("amix=inputs=");
        push_u64(&mut e, n as u64);
        push_str(&mut e, ":duration=longest");
        let outs = vec![out.clone()];
        assert(texts(outs@) =~= seq![out@]);
        self.add(ins, e.as_str(), outs);
        out
    }

    /// A concat filter over `n` segments, each a video and an audio stream.
    pub fn add_concat(&mut self, video_inputs: &[String], audio_inputs: &[String], n: usize) -> (r: (String, String))
        requires
            old(self)@.counter + 2 <= usize::MAX,
            n <= video_inputs@.len(),
            n <= audio_inputs@.len(),
        ensures
            (final(self)@, (r.0@, r.1@)) == g_concat(old(self)@, texts(video_inputs@), texts(audio_inputs@), n as nat),
    {
        let vout = self.next_label("outv");
        let aout = self.next_label("outa");
        let mut inputs: Vec<String> = Vec::new();
        let mut i: usize = 0;
        while i < n
            invariant
                i <= n,
                n <= video_inputs@.len(),
                n <= audio_inputs@.len(),
                texts(inputs@) == interleave(texts(video_inputs@), texts(audio_inputs@), i as nat),
            decreases n - i,
        {
            let ghost before = texts(inputs@);
            inputs.push(video_inputs[i].clone());
            inputs.push(audio_inputs[i].clone());
            assert(texts(inputs@) =~= before + seq![video_inputs@[i as int]@, audio_inputs@[i as int]@]);
            i = i + 1;
        }
        let mut e = string_of("concat=n=");
        push_u64(&mut e, n as u64);
        push_str(&mut e, ":v=1:a=1");
        let outs = vec![vout.clone(), aout.clone()];
        assert(texts(outs@) =~= seq![vout@, aout@]);
        self.add(inputs, e.as_str(), outs);
        (vout, aout)
    }

    /// A chroma key for a `#RRGGBB` color.
    pub fn add_chromakey_hex(&mut self, input: &str, hex: &str) -> (out: String)
        requires
            old(self)@.counter < usize::MAX,
        ensures
            (final(self)@, out@) == g_chromakey_hex(old(self)@, input@, hex@),
    {
        let hv = chars_of(hex);
        let i = find_char_from(hv.as_slice(), '#', 0);
        assert(hv@.skip(0) =~= hv@);
        let mut e = string_of("chromakey=");
        if i < hv.len() {
            let before = chars_between(hv.as_slice(), 0, i);
            let after = chars_between(hv.as_slice(), i + 1, hv.len());
            push_str(&mut e, string_from_chars(before.as_slice()).as_str());
            push_str(&mut e, "0x");
            push_str(&mut e, string_from_chars(after.as_slice()).as_str());
            assert(before@ =~= hex@.take(i as int));
            assert(after@ =~= hex@.skip(i + 1));
        } else {
            push_str(&mut e, hex);
        }
        push_str(&mut e, ":0.1:0.2");
        assert(e@ =~= "chromakey="@ + hex_prefixed(hex@) + ":0.1:0.2"@);
        self.unary("ck", input, e.as_str())
    }

    /// A chroma key (green or blue screen removal).
    pub fn add_chromakey(&mut self, input: &str, color: &str) -> (out: String)
        requires
            old(self)@.counter + 2 <= usize::MAX,
        ensures
            (final(self)@, out@) == g_chromakey(old(self)@, input@, color@),
    {
        let cs = string_of(color);
        if string_eq_str(&cs, "blue") {
            return self.unary("ck", input, "chromakey=0x0000FF:0.1:0.2");
        }
        let cv = chars_of(color);
        if !string_eq_str(&cs, "green") && cv.len() > 0 && cv[0] == '#' {
            let _unused = self.next_label("ck");
            return self.add_chromakey_hex(input, color);
        }
        self.unary("ck", input, "chromakey=0x00FF00:0.1:0.2")
    }

    /// A crop; `spec` is in `WxH+X+Y` format (such as "640x480+100+50").
    #[verifier::rlimit(30)]
    pub fn add_crop(&mut self, input: &str, spec: &str) -> (out: String)
        requires
            old(self)@.counter < usize::MAX,
        ensures
            (final(self)@, out@) == g_unary(old(self)@, "cr"@, input@, crop_text(spec@)),
    {
        let sv = chars_of(spec);
        let (first, rest) = split_once_exec(sv.as_slice(), '+');
        let mut wh = string_of(spec);
        let mut xy = string_of("0:0");
        if let Some(rest) = rest {
            let whp = split_chars(first.as_slice(), 'x');
            let (x0, x1) = split_once_exec(rest.as_slice(), '+');
            let ghost whs = split_on(first@, 'x');
            assert(whp@.len() == whs.len());
            if whp.len() == 2 {
                if let Some(x1) = x1 {
                    assert(whp@[0]@ == whs[0] && whp@[1]@ == whs[1]);
                    wh = string_from_chars(whp[0].as_slice());
                    push_str(&mut wh, ":");
                    push_str(&mut wh, string_from_chars(whp[1].as_slice()).as_str());
                    xy = string_from_chars(x0.as_slice());
                    push_str(&mut xy, ":");
                    push_str(&mut xy, string_from_chars(x1.as_slice()).as_str());
                }
            }
        }
        let mut e = string_of("crop=");
        push_str(&mut e, wh.as_str());
        push_str(&mut e, ":");
        push_str(&mut e, xy.as_str());
        assert(e@ =~= crop_text(spec@));
        self.unary("cr", input, e.as_str())
    }

    /// A drawtext filter for a text overlay, without alpha animation.
    pub fn add_drawtext(
        &mut self,
        input: &str,
        text: &str,
        font: &str,
        size: u32,
        color: &str,
        x: &str,
        y: &str,
        start: Fixed,
        end: Fixed,
    ) -> (out: String)
        requires
            old(self)@.counter < usize::MAX,
        ensures
            (final(self)@, out@) == g_unary(old(self)@, "txt"@, input@, drawtext_text(text@, font@, size, color@, x@, y@, start, end, None)),
    {
        self.add_drawtext_with_alpha(input, text, font, size, color, x, y, start, end, None)
    }

    /// A drawtext filter with an optional alpha animation expression.
    pub fn add_drawtext_with_alpha(
        &mut self,
        input: &str,
        text: &str,
        font: &str,
        size: u32,
        color: &str,
        x: &str,
        y: &str,
        start: Fixed,
        end: Fixed,
        alpha: Option<&str>,
    ) -> (out: String)
        requires
            old(self)@.counter < usize::MAX,
        ensures
            (final(self)@, out@) == g_unary(old(self)@, "txt"@, input@, drawtext_text(text@, font@, size, color@, x@, y@, start, end, match alpha {
                Some(a) => Some(a@),
                None => None,
            })),
    {
        let mut e = string_of("drawtext=text='");
        push_escaped(&mut e, text);
        push_str(&mut e, "':fontfile=");
        push_str(&mut e, font);
        push_str(&mut e, ":fontsize=");
        push_u64(&mut e, size as u64);
        push_str(&mut e, ":fontcolor=");
        push_str(&mut e, color);
        push_str(&mut e, ":x=");
        push_str(&mut e, x);
        push_str(&mut e, ":y=");
        push_str(&mut e, y);
        push_str(&mut e, ":enable='between(t,");
        push_fixed(&mut e, start);
        push_str(&mut e, ",");
        push_fixed(&mut e, end);
        push_str(&mut e, ")'");
        if let Some(a) = alpha {
            push_str(&mut e, ":alpha='");
            push_str(&mut e, a);
            push_str(&mut e, "'");
        }
        let ghost av = match alpha {
            Some(a) => Some(a@),
            None => None,
        };
        assert(e@ =~= drawtext_text(text@, font@, size, color@, x@, y@, start, end, av));
        self.unary("txt", input, e.as_str())
    }

    /// A zoompan animation: normal, zoom in to `peak`, hold, zoom out, over
    /// `duration` seconds; `pan_x` and `pan_y` (from -1 to 1) move the focus.
    #[verifier::rlimit(30)]
    pub fn add_zoompan(
        &mut self,
        input: &str,
        peak: Fixed,
        duration: Fixed,
        width: u32,
        height: u32,
        fps: u32,
        pan_x: Option<Fixed>,
        pan_y: Option<Fixed>,
    ) -> (out: String)
        requires
            old(self)@.counter < usize::MAX,
        ensures
            (final(self)@, out@) == g_unary(old(self)@, "zp"@, input@, zoompan_text(peak, duration, width, height, fps, pan_x, pan_y)),
    {
        assert(-9_223_372_036_854_775_808 * 4_294_967_295 <= duration.raw * fps <= 9_223_372_036_854_775_807 * 4_294_967_295)
            by (nonlinear_arith)
            requires
                -9_223_372_036_854_775_808 <= duration.raw <= 9_223_372_036_854_775_807,
                0 <= fps <= 4_294_967_295,
        ;
        let x: i128 = (duration.raw as i128) * (fps as i128);
        let total: u128 = if x <= 0 {
            0
        } else if x / 1_000_000_000 > 18_446_744_073_709_551_615 {
            18_446_744_073_709_551_615
        } else {
            (x / 1_000_000_000) as u128
        };
        assert(total == frames_of(duration, fps));
        let f1: u128 = total * 3 / 10;
        let f2: u128 = total * 7 / 10;
        let f3: u128 = total - f2;
        let pm1 = Fixed::from_wide(peak.raw as i128 - 1_000_000_000);
        let mut f1t = String::new();
        push_nat_text(&mut f1t, f1);
        let mut f2t = String::new();
        push_nat_text(&mut f2t, f2);
        let mut e = string_of("zoompan=z='");
        let mut f3t = String::new();
        push_nat_text(&mut f3t, f3);
        let pkt = peak.text();
        let pmt = pm1.text();
        push_zoom_curve(&mut e, f1t.as_str(), f2t.as_str(), f3t.as_str(), pkt.as_str(), pmt.as_str());
        push_str(&mut e, "':x='");
        push_pan(&mut e, "iw", pan_x);
        push_str(&mut e, "':y='");
        push_pan(&mut e, "ih", pan_y);
        push_str(&mut e, "':d=1:s=");
        push_u64(&mut e, width as u64);
        push_str(&mut e, "x");
        push_u64(&mut e, height as u64);
        push_str(&mut e, ":fps=");
        push_u64(&mut e, fps as u64);
        assert(e@ =~= zoompan_text(peak, duration, width, height, fps, pan_x, pan_y));
        self.unary("zp", input, e.as_str())
    }
}

/// `v` cut at its first `c`: the part before, and the part after when
/// there is a `c`.
pub fn split_once_exec(v: &[char], c: char) -> (r: (Vec<char>, Option<Vec<char>>))
    ensures
        split_once(v@, c) == match r.1 {
            Some(after) => seq![r.0@, after@],
            None => seq![r.0@],
        },
{
    let i = find_char_from(v, c, 0);
    assert(v@.skip(0) =~= v@);
    if i < v.len() {
        let before = chars_between(v, 0, i);
        let after = chars_between(v, i + 1, v.len());
        assert(before@ =~= v@.take(i as int));
        assert(after@ =~= v@.skip(i + 1));
        (before, Some(after))
    } else {
        let all = chars_between(v, 0, v.len());
        assert(all@ =~= v@);
        (all, None)
    }
}

/// Appends `text` to `out` with each `'` replaced by `'\''`.
pub fn push_escaped(out: &mut String, text: &str)
    ensures
        final(out)@ == old(out)@ + escape_quotes(text@),
{
    let ghost start = out@;
    let tv = chars_of(text);
    let mut i: usize = 0;
    assert(tv@.take(0) =~= Seq::<char>::empty());
    while i < tv.len()
        invariant
            i <= tv@.len(),
            tv@ == text@,
            out@ == start + escape_quotes(tv@.take(i as int)),
        decreases tv@.len() - i,
    {
        let ch = tv[i];
        if ch == '\'' {
            push_str(out, "'\\''");
        } else {
            string_push(out, ch);
        }
        assert(tv@.take(i + 1).drop_last() =~= tv@.take(i as int));
        assert(out@ =~= start + escape_quotes(tv@.take(i + 1)));
        i = i + 1;
    }
    assert(tv@.take(i as int) =~= tv@);
}

/// Appends the zoom expression of zoompan to `out`.
fn push_zoom_curve(out: &mut String, f1: &str, f2: &str, f3: &str, pk: &str, pm1: &str)
    ensures
        final(out)@ == old(out)@ + zoom_curve(f1@, f2@, f3@, pk@, pm1@),
{
    push_str(out, "if(lt(on\\,");
    push_str(out, f1);
    push_str(out, ")\\,1+on/");
    push_str(out, f1);
    push_str(out, "*");
    push_str(out, pm1);
    push_str(out, "\\,if(lt(on\\,");
    push_str(out, f2);
    push_str(out, ")\\,");
    push_str(out, pk);
    push_str(out, "\\,");
    push_str(out, pk);
    push_str(out, "-(on-");
    push_str(out, f2);
    push_str(out, ")/");
    push_str(out, f3);
    push_str(out, "*");
    push_str(out, pm1);
    push_str(out, "))");
    assert(final(out)@ =~= old(out)@ + zoom_curve(f1@, f2@, f3@, pk@, pm1@));
}

/// Appends the zoompan offset expression along `dim` to `out`.
fn push_pan(out: &mut String, dim: &str, pan: Option<Fixed>)
    ensures
        final(out)@ == old(out)@ + pan_text(dim@, pan),
{
    let p: i64 = match pan {
        Some(x) => x.raw,
        None => 0,
    };
    push_str(out, dim);
    push_str(out, "/2-(");
    push_str(out, dim);
    push_str(out, "/zoom/2)");
    if p != 0 {
        push_str(out, "+");
        push_str(out, dim);
        push_str(out, "*");
        push_fixed(out, Fixed { raw: p });
        push_str(out, "*(1-1/zoom)/2");
    }
    assert(final(out)@ =~= old(out)@ + pan_text(dim@, pan));
}

} // verus!
