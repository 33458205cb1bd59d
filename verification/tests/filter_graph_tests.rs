use veac::filter_graph::FilterGraph;
use veac::fixed::Fixed;

fn fx(v: f64) -> Fixed {
    Fixed { raw: (v * 1_000_000_000.0).round() as i64 }
}

#[test]
fn render_simple_concat() {
    let mut g = FilterGraph::new();
    let v0 = g.add_trim("0:v", Some(fx(5.0)), Some(fx(15.0)));
    let a0 = g.add_atrim("0:a", Some(fx(5.0)), Some(fx(15.0)));
    let v1 = g.add_trim("1:v", None, None);
    let a1 = g.add_atrim("1:a", None, None);
    let (vout, aout) = g.add_concat(&[v0, v1], &[a0, a1], 2);
    let rendered = g.render();
    assert!(rendered.contains("concat=n=2:v=1:a=1"));
    assert!(rendered.contains(&format!("[{vout}]")));
    assert!(rendered.contains(&format!("[{aout}]")));
}

#[test]
fn render_drawtext() {
    let mut g = FilterGraph::new();
    let out = g.add_drawtext(
        "0:v", "Hello", "Arial", 48, "white",
        "(w-text_w)/2", "(h-text_h)/2", fx(3.0), fx(8.0),
    );
    let rendered = g.render();
    assert!(rendered.contains("drawtext=text='Hello'"));
    assert!(rendered.contains("enable='between(t,3,8)'"));
    assert!(rendered.contains(&format!("[{out}]")));
}

#[test]
fn render_xfade() {
    let mut g = FilterGraph::new();
    let out = g.add_xfade("v0", "v1", "fade", fx(1.0), fx(9.0));
    let rendered = g.render();
    assert!(rendered.contains("xfade=transition=fade:duration=1:offset=9"));
    assert!(rendered.contains(&format!("[{out}]")));
}

#[test]
fn render_speed_change() {
    let mut g = FilterGraph::new();
    let out = g.add_speed("0:v", fx(2.0));
    let rendered = g.render();
    assert!(rendered.contains("setpts=PTS/2"));
    assert!(rendered.contains(&format!("[{out}]")));
}

#[test]
fn render_atempo() {
    let mut g = FilterGraph::new();
    let out = g.add_atempo("0:a", fx(2.0));
    let rendered = g.render();
    assert!(rendered.contains("atempo=2"));
    assert!(rendered.contains(&format!("[{out}]")));
}

#[test]
fn render_eq() {
    let mut g = FilterGraph::new();
    let out = g.add_eq("0:v", Some(fx(0.1)), Some(fx(1.2)), Some(fx(1.5)));
    let rendered = g.render();
    assert!(rendered.contains("eq=brightness=0.1:contrast=1.2:saturation=1.5"));
    assert!(rendered.contains(&format!("[{out}]")));
}
