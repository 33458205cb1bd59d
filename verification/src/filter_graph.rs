//! Builder for FFmpeg `-filter_complex` strings: the graph, its labels and
//! its rendering.
use vstd::prelude::*;
use crate::text::{nat_text, push_nat_text, push_str, string_of};

verus! {

/// A single filter node in the graph (such as `[0:v]trim=start=5:end=15[v0]`).
#[derive(Debug, Clone)]
pub struct Filter {
    /// Input stream labels, such as `["0:v"]`.
    pub inputs: Vec<String>,
    /// Filter name with parameters, such as `trim=start=5:end=15`.
    pub expr: String,
    /// Output stream labels, such as `["v0"]`.
    pub outputs: Vec<String>,
}

/// A filter with its text held as character sequences.
pub struct FilterView {
    pub inputs: Seq<Seq<char>>,
    pub expr: Seq<char>,
    pub outputs: Seq<Seq<char>>,
}

/// The texts of a run of strings.
pub open spec fn texts(v: Seq<String>) -> Seq<Seq<char>> {
    v.map_values(|s: String| s@)
}

impl View for Filter {
    type V = FilterView;

    open spec fn view(&self) -> FilterView {
        FilterView { inputs: texts(self.inputs@), expr: self.expr@, outputs: texts(self.outputs@) }
    }
}

/// Builder for FFmpeg `-filter_complex` strings.
#[derive(Debug, Clone)]
pub struct FilterGraph {
    filters: Vec<Filter>,
    label_counter: usize,
}

/// A filter graph: its filters in order, and the number of labels handed
/// out so far.
pub struct GraphView {
    pub filters: Seq<FilterView>,
    pub counter: nat,
}

impl View for FilterGraph {
    type V = GraphView;

    closed spec fn view(&self) -> GraphView {
        GraphView { filters: self.filters@.map_values(|f: Filter| f@), counter: self.label_counter as nat }
    }
}

/// The label with `prefix` and number `n`, such as `s0`.
pub open spec fn label(prefix: Seq<char>, n: nat) -> Seq<char> {
    prefix + nat_text(n)
}

/// The graph with one more filter.
pub open spec fn g_add(g: GraphView, inputs: Seq<Seq<char>>, expr: Seq<char>, outputs: Seq<Seq<char>>) -> GraphView {
    GraphView { filters: g.filters.push(FilterView { inputs, expr, outputs }), counter: g.counter }
}

/// The graph after handing out the next label with `prefix`, and that label.
pub open spec fn g_label(g: GraphView, prefix: Seq<char>) -> (GraphView, Seq<char>) {
    (GraphView { counter: g.counter + 1, ..g }, label(prefix, g.counter))
}

/// A filter `expr` from `input` to a new label with `prefix`: the graph
/// after it, and the label.
pub open spec fn g_unary(g: GraphView, prefix: Seq<char>, input: Seq<char>, expr: Seq<char>) -> (GraphView, Seq<char>) {
    let (g1, out) = g_label(g, prefix);
    (g_add(g1, seq![input], expr, seq![out]), out)
}

/// A filter `expr` from two inputs to a new label with `prefix`.
pub open spec fn g_binary(g: GraphView, prefix: Seq<char>, in1: Seq<char>, in2: Seq<char>, expr: Seq<char>) -> (GraphView, Seq<char>) {
    let (g1, out) = g_label(g, prefix);
    (g_add(g1, seq![in1, in2], expr, seq![out]), out)
}

/// A source filter `expr`, with no input, to a new label with `prefix`.
pub open spec fn g_source(g: GraphView, prefix: Seq<char>, expr: Seq<char>) -> (GraphView, Seq<char>) {
    let (g1, out) = g_label(g, prefix);
    (g_add(g1, Seq::empty(), expr, seq![out]), out)
}

/// Each label in brackets, one after the other.
pub open spec fn bracketed(labels: Seq<Seq<char>>) -> Seq<char>
    decreases labels.len(),
{
    if labels.len() == 0 {
        Seq::empty()
    } else {
        bracketed(labels.drop_last()) + "["@ + labels.last() + "]"@
    }
}

/// One filter as it appears in the rendered graph.
pub open spec fn filter_text(f: FilterView) -> Seq<char> {
    bracketed(f.inputs) + f.expr + bracketed(f.outputs)
}

/// The rendered filters, separated by `;`.
pub open spec fn render_filters(fs: Seq<FilterView>) -> Seq<char>
    decreases fs.len(),
{
    if fs.len() == 0 {
        Seq::empty()
    } else if fs.len() == 1 {
        filter_text(fs[0])
    } else {
        render_filters(fs.drop_last()) + ";"@ + filter_text(fs.last())
    }
}

/// Appends each label of `labels` in brackets to `out`.
fn push_bracketed(out: &mut String, labels: &Vec<String>)
    ensures
        final(out)@ == old(out)@ + bracketed(texts(labels@)),
{
    let ghost start = out@;
    let mut i: usize = 0;
    assert(texts(labels@).take(0) =~= Seq::<Seq<char>>::empty());
    while i < labels.len()
        invariant
            i <= labels@.len(),
            out@ == start + bracketed(texts(labels@).take(i as int)),
        decreases labels@.len() - i,
    {
        push_str(out, "[");
        push_str(out, labels[i].as_str());
        push_str(out, "]");
        assert(texts(labels@).take(i + 1).drop_last() =~= texts(labels@).take(i as int));
        assert(out@ =~= start + bracketed(texts(labels@).take(i + 1)));
        i = i + 1;
    }
    assert(texts(labels@).take(i as int) =~= texts(labels@));
}

impl FilterGraph {
    pub fn new() -> (g: Self)
        ensures
            g@.filters == Seq::<FilterView>::empty(),
            g@.counter == 0,
    {
        let g = FilterGraph { filters: Vec::new(), label_counter: 0 };
        assert(g@.filters =~= Seq::<FilterView>::empty());
        g
    }

    pub fn is_empty(&self) -> (b: bool)
        ensures
            b == (self@.filters.len() == 0),
    {
        self.filters.len() == 0
    }

    /// Allocate a unique stream label like `s0`, `s1`, ...
    pub fn next_label(&mut self, prefix: &str) -> (l: String)
        requires
            old(self)@.counter < usize::MAX,
        ensures
            (final(self)@, l@) == g_label(old(self)@, prefix@),
    {
        let mut l = string_of(prefix);
        push_nat_text(&mut l, self.label_counter as u128);
        self.label_counter = self.label_counter + 1;
        assert(self@.filters =~= old(self)@.filters);
        l
    }

    /// Add a filter with explicit inputs and outputs.
    pub fn add(&mut self, inputs: Vec<String>, expr: &str, outputs: Vec<String>)
        ensures
            final(self)@ == g_add(old(self)@, texts(inputs@), expr@, texts(outputs@)),
    {
        let f = Filter { inputs, expr: string_of(expr), outputs };
        let ghost before = self.filters@;
        self.filters.push(f);
        assert(self@.filters =~= old(self)@.filters.push(f@));
    }

    /// Render the entire filter graph to an FFmpeg `-filter_complex` value.
    pub fn render(&self) -> (s: String)
        ensures
            s@ == render_filters(self@.filters),
    {
        let ghost fs = self@.filters;
        let mut s = String::new();
        let mut i: usize = 0;
        assert(fs.take(0) =~= Seq::<FilterView>::empty());
        while i < self.filters.len()
            invariant
                i <= self.filters@.len(),
                fs == self@.filters,
                fs.len() == self.filters@.len(),
                s@ == render_filters(fs.take(i as int)),
            decreases self.filters@.len() - i,
        {
            let f = &self.filters[i];
            assert(fs[i as int] == f@);
            let ghost before = s@;
            if i > 0 {
                push_str(&mut s, ";");
            }
            push_bracketed(&mut s, &f.inputs);
            push_str(&mut s, f.expr.as_str());
            push_bracketed(&mut s, &f.outputs);
            assert(fs.take(i + 1).drop_last() =~= fs.take(i as int));
            if i == 0 {
                assert(s@ =~= render_filters(fs.take(i + 1)));
            } else {
                assert(s@ =~= render_filters(fs.take(i + 1)));
            }
            i = i + 1;
        }
        assert(fs.take(i as int) =~= fs);
        s
    }

    /// A filter `expr` from `input` to a new label with `prefix`.
    pub(crate) fn unary(&mut self, prefix: &str, input: &str, expr: &str) -> (out: String)
        requires
            old(self)@.counter < usize::MAX,
        ensures
            (final(self)@, out@) == g_unary(old(self)@, prefix@, input@, expr@),
    {
        let out = self.next_label(prefix);
        let ins = vec![string_of(input)];
        let outs = vec![out.clone()];
        assert(texts(ins@) =~= seq![input@]);
        assert(texts(outs@) =~= seq![out@]);
        self.add(ins, expr, outs);
        out
    }

    /// A filter `expr` from two inputs to a new label with `prefix`.
    pub(crate) fn binary(&mut self, prefix: &str, in1: &str, in2: &str, expr: &str) -> (out: String)
        requires
            old(self)@.counter < usize::MAX,
        ensures
            (final(self)@, out@) == g_binary(old(self)@, prefix@, in1@, in2@, expr@),
    {
        let out = self.next_label(prefix);
        let ins = vec![string_of(in1), string_of(in2)];
        let outs = vec![out.clone()];
        assert(texts(ins@) =~= seq![in1@, in2@]);
        assert(texts(outs@) =~= seq![out@]);
        self.add(ins, expr, outs);
        out
    }

    /// A source filter `expr` to a new label with `prefix`.
    pub(crate) fn source(&mut self, prefix: &str, expr: &str) -> (out: String)
        requires
            old(self)@.counter < usize::MAX,
        ensures
            (final(self)@, out@) == g_source(old(self)@, prefix@, expr@),
    {
        let out = self.next_label(prefix);
        let ins: Vec<String> = Vec::new();
        let outs = vec![out.clone()];
        assert(texts(ins@) =~= Seq::<Seq<char>>::empty());
        assert(texts(outs@) =~= seq![out@]);
        self.add(ins, expr, outs);
        out
    }
}

} // verus!
