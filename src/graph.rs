use vstd::prelude::*;
use crate::buffer::{RotatingSampleBuffer, recorded};

verus! {

/// A vertical fraction `num / den` of the canvas, with `num <= den`.
#[derive(Clone, Copy, Debug, PartialEq, Eq, Structural)]
pub struct Fraction {
    pub num: u64,
    pub den: u64,
}

/// A point in canvas pixel space, origin at the top left.
#[derive(Clone, Copy, Debug, PartialEq, Eq, Structural)]
pub struct Point {
    pub x: u32,
    pub y: u32,
}

/// What the host draws for one series: its legend data and its polyline,
/// oldest sample first.
pub struct SeriesGeometry {
    pub label: String,
    pub color: Option<usize>,
    pub fractions: Vec<Fraction>,
    pub points: Vec<Point>,
}

/// What the host draws for a whole graph, one entry per series in
/// registration order.
pub struct RenderGeometry {
    pub series: Vec<SeriesGeometry>,
}

/// The abstract state of one series.
pub struct SeriesView {
    pub samples: Seq<u64>,
    pub label: Seq<char>,
    pub color: Option<usize>,
    pub fixed_max: Option<u64>,
}

/// The abstract state of a graph.
pub struct GraphView {
    pub series: Seq<SeriesView>,
    pub window: nat,
    pub global_max: Option<u64>,
    pub dirty: bool,
}

/// The largest sample of `s`, or 0 when `s` is empty.
pub open spec fn seq_max(s: Seq<u64>) -> nat
    decreases s.len(),
{
    if s.len() == 0 {
        0
    } else if s.last() as nat > seq_max(s.drop_last()) {
        s.last() as nat
    } else {
        seq_max(s.drop_last())
    }
}

/// The scale a series is drawn against: the graph's override, else the
/// series' fixed maximum, else the largest sample in its window; a zero scale
/// counts as 1.
pub open spec fn scale_of(global_max: Option<u64>, fixed_max: Option<u64>, samples: Seq<u64>) -> nat {
    let raw: nat = match global_max {
        Some(g) => g as nat,
        None => match fixed_max {
            Some(m) => m as nat,
            None => seq_max(samples),
        },
    };
    if raw == 0 {
        1
    } else {
        raw
    }
}

/// `v / scale`, clamped to at most 1.
pub open spec fn fraction_of(v: u64, scale: nat) -> Fraction {
    Fraction { num: if v as nat <= scale { v } else { scale as u64 }, den: scale as u64 }
}

/// The fraction of each sample of a series, oldest first.
pub open spec fn fractions_of(s: SeriesView, global_max: Option<u64>) -> Seq<Fraction> {
    let scale = scale_of(global_max, s.fixed_max, s.samples);
    s.samples.reverse().map_values(|v: u64| fraction_of(v, scale))
}

/// Where the sample at chronological index `i` of `n` is drawn on a
/// `width` by `height` canvas.
pub open spec fn point_of(i: int, n: nat, f: Fraction, width: u32, height: u32) -> Point {
    Point {
        x: ((i * width) / (n - 1)) as u32,
        y: ((height * (f.den - f.num)) / (f.den as int)) as u32,
    }
}

/// The polyline of a sequence of fractions.
pub open spec fn points_of(fs: Seq<Fraction>, width: u32, height: u32) -> Seq<Point> {
    Seq::new(fs.len(), |i: int| point_of(i, fs.len(), fs[i], width, height))
}

/// `g` is the geometry of series `s` on a `width` by `height` canvas.
pub open spec fn geometry_of(
    g: SeriesGeometry,
    s: SeriesView,
    global_max: Option<u64>,
    width: u32,
    height: u32,
) -> bool {
    &&& g.label@ == s.label
    &&& g.color == s.color
    &&& g.fractions@ == fractions_of(s, global_max)
    &&& g.points@ == points_of(fractions_of(s, global_max), width, height)
}

/// Graph `g` after series `h` has recorded `v`.
pub open spec fn recorded_series(g: GraphView, h: int, v: u64) -> GraphView {
    GraphView {
        series: g.series.update(
            h,
            SeriesView { samples: recorded(g.series[h].samples, v), ..g.series[h] },
        ),
        ..g
    }
}

/// `r` is the picture of graph `g` on a `width` by `height` canvas.
pub open spec fn rendered(r: RenderGeometry, g: GraphView, width: u32, height: u32) -> bool {
    &&& r.series@.len() == g.series.len()
    &&& forall|k: int|
        0 <= k < r.series@.len() ==> geometry_of(
            #[trigger] r.series@[k],
            g.series[k],
            g.global_max,
            width,
            height,
        )
}

/// `a` and `b` describe the same picture.
pub open spec fn same_geometry(a: RenderGeometry, b: RenderGeometry) -> bool {
    &&& a.series@.len() == b.series@.len()
    &&& forall|k: int|
        0 <= k < a.series@.len() ==> {
            &&& (#[trigger] a.series@[k]).label@ == b.series@[k].label@
            &&& a.series@[k].color == b.series@[k].color
            &&& a.series@[k].fractions@ == b.series@[k].fractions@
            &&& a.series@[k].points@ == b.series@[k].points@
        }
}

/// One named, coloured metric stream with its own rolling window.
pub struct Series {
    buffer: RotatingSampleBuffer,
    label: String,
    color: Option<usize>,
    fixed_max: Option<u64>,
}

impl View for Series {
    type V = SeriesView;

    closed spec fn view(&self) -> SeriesView {
        SeriesView {
            samples: self.buffer@,
            label: self.label@,
            color: self.color,
            fixed_max: self.fixed_max,
        }
    }
}

/// An ordered set of series sharing one window length, with a dirty flag
/// that tells the host whether the drawn picture is stale.
pub struct SeriesGraph {
    series: Vec<Series>,
    window: usize,
    global_max: Option<u64>,
    dirty: bool,
}

impl View for SeriesGraph {
    type V = GraphView;

    closed spec fn view(&self) -> GraphView {
        GraphView {
            series: self.series@.map_values(|s: Series| s@),
            window: self.window as nat,
            global_max: self.global_max,
            dirty: self.dirty,
        }
    }
}

impl SeriesGraph {
    pub closed spec fn wf(&self) -> bool {
        &&& self.window >= 2
        &&& forall|k: int|
            0 <= k < self.series@.len() ==> {
                &&& #[trigger] self.series@[k].buffer.wf()
                &&& self.series@[k].buffer@.len() == self.window
            }
    }

    /// Creates a graph with no series whose windows hold `window` samples.
    pub fn new(window: usize, global_max: Option<u64>) -> (r: SeriesGraph)
        requires
            window >= 2,
        ensures
            r.wf(),
            r@.series.len() == 0,
            r@.window == window,
            r@.global_max == global_max,
            r@.dirty,
    {
        let r = SeriesGraph { series: Vec::new(), window, global_max, dirty: true };
        assert(r@.series =~= Seq::<SeriesView>::empty());
        r
    }

    /// Appends a series whose window is all zeros; returns its handle.
    pub fn register_series(&mut self, label: &str, color: Option<usize>, fixed_max: Option<u64>) -> (h: usize)
        requires
            old(self).wf(),
        ensures
            final(self).wf(),
            h == old(self)@.series.len(),
            final(self)@.series == old(self)@.series.push(
                SeriesView {
                    samples: Seq::new(old(self)@.window, |i: int| 0u64),
                    label: label@,
                    color,
                    fixed_max,
                },
            ),
            final(self)@.window == old(self)@.window,
            final(self)@.global_max == old(self)@.global_max,
            final(self)@.dirty,
    {
        let s = Series {
            buffer: RotatingSampleBuffer::new(self.window),
            label: String::from_str(label),
            color,
            fixed_max,
        };
        let h = self.series.len();
        self.series.push(s);
        self.dirty = true;
        assert(self@.series =~= old(self)@.series.push(s@));
        h
    }

    /// The number of registered series.
    pub fn series_count(&self) -> (r: usize)
        ensures
            r == self@.series.len(),
    {
        self.series.len()
    }

    /// The window length shared by all series.
    pub fn window(&self) -> (r: usize)
        ensures
            r == self@.window,
    {
        self.window
    }

    /// Whether the drawn picture is stale.
    pub fn is_dirty(&self) -> (r: bool)
        ensures
            r == self@.dirty,
    {
        self.dirty
    }

    /// Marks the drawn picture stale.
    pub fn invalidate(&mut self)
        requires
            old(self).wf(),
        ensures
            final(self).wf(),
            final(self)@ == (GraphView { dirty: true, ..old(self)@ }),
    {
        self.dirty = true;
    }

    /// Advances the window of series `handle` and writes `value` as its
    /// newest sample. The dirty flag is left as it is.
    pub fn record(&mut self, handle: usize, value: u64)
        requires
            old(self).wf(),
            handle < old(self)@.series.len(),
        ensures
            final(self).wf(),
            final(self)@ == recorded_series(old(self)@, handle as int, value),
    {
        assert(self.series@[handle as int].buffer.wf());
        self.series[handle].buffer.record(value);
        assert(self@.series =~= old(self)@.series.update(
            handle as int,
            SeriesView {
                samples: recorded(old(self)@.series[handle as int].samples, value),
                ..old(self)@.series[handle as int]
            },
        ));
    }

    /// The sample at logical index `index` (0 is the newest) of series `handle`.
    pub fn read(&self, handle: usize, index: usize) -> (r: u64)
        requires
            self.wf(),
            handle < self@.series.len(),
            index < self@.window,
        ensures
            r == self@.series[handle as int].samples[index as int],
    {
        assert(self.series@[handle as int].buffer.wf());
        self.series[handle].buffer.read(index)
    }

    /// The samples of series `handle`, oldest first.
    pub fn chronological(&self, handle: usize) -> (r: Vec<u64>)
        requires
            self.wf(),
            handle < self@.series.len(),
        ensures
            r@ == self@.series[handle as int].samples.reverse(),
    {
        assert(self.series@[handle as int].buffer.wf());
        self.series[handle].buffer.iter_chronological()
    }

    /// The scale series `handle` is drawn against.
    pub fn scale(&self, handle: usize) -> (r: u64)
        requires
            self.wf(),
            handle < self@.series.len(),
        ensures
            r == scale_of(
                self@.global_max,
                self@.series[handle as int].fixed_max,
                self@.series[handle as int].samples,
            ),
    {
        assert(self.series@[handle as int].buffer.wf());
        series_scale(&self.series[handle], self.global_max)
    }

    /// Computes the picture of every series on a `width` by `height` canvas
    /// and marks the graph clean.
    pub fn render(&mut self, width: u32, height: u32) -> (r: RenderGeometry)
        requires
            old(self).wf(),
        ensures
            final(self).wf(),
            final(self)@ == (GraphView { dirty: false, ..old(self)@ }),
            rendered(r, old(self)@, width, height),
    {
        let mut out: Vec<SeriesGeometry> = Vec::new();
        let mut k: usize = 0;
        while k < self.series.len()
            invariant
                self.wf(),
                self == old(self),
                k <= self.series@.len(),
                out@.len() == k,
                forall|j: int|
                    0 <= j < k ==> geometry_of(
                        #[trigger] out@[j],
                        self@.series[j],
                        self.global_max,
                        width,
                        height,
                    ),
            decreases self.series@.len() - k,
        {
            assert(self.series@[k as int].buffer.wf());
            let g = series_geometry(&self.series[k], self.global_max, self.window, width, height);
            out.push(g);
            k = k + 1;
        }
        self.dirty = false;
        assert(self.series@ == old(self).series@);
        RenderGeometry { series: out }
    }
}

/// The largest sample of a buffer.
fn window_max(b: &RotatingSampleBuffer) -> (m: u64)
    requires
        b.wf(),
    ensures
        m == seq_max(b@),
{
    let n = b.capacity();
    let mut m: u64 = 0;
    let mut k: usize = 0;
    while k < n
        invariant
            b.wf(),
            n == b@.len(),
            k <= n,
            m == seq_max(b@.subrange(0, k as int)),
        decreases n - k,
    {
        let v = b.read(k);
        assert(b@.subrange(0, k + 1).drop_last() =~= b@.subrange(0, k as int));
        if v > m {
            m = v;
        }
        k = k + 1;
    }
    assert(b@.subrange(0, n as int) =~= b@);
    m
}

fn series_scale(s: &Series, global_max: Option<u64>) -> (r: u64)
    requires
        s.buffer.wf(),
    ensures
        r == scale_of(global_max, s@.fixed_max, s@.samples),
{
    let raw = match global_max {
        Some(g) => g,
        None => match s.fixed_max {
            Some(m) => m,
            None => window_max(&s.buffer),
        },
    };
    if raw == 0 {
        1
    } else {
        raw
    }
}

fn point_at(i: usize, n: usize, f: Fraction, width: u32, height: u32) -> (p: Point)
    requires
        n >= 2,
        i < n,
        1 <= f.den,
        f.num <= f.den,
    ensures
        p == point_of(i as int, n as nat, f, width, height),
{
    assert((i as u128) * (width as u128) <= 0xffff_ffff_ffff_ffffu128 * 0xffff_ffffu128)
        by (nonlinear_arith)
        requires
            i <= 0xffff_ffff_ffff_ffffu128,
            width <= 0xffff_ffffu128,
    ;
    let iw: u128 = (i as u128) * (width as u128);
    let d: u128 = (n - 1) as u128;
    assert(iw <= (n - 1) as u128 * width as u128) by (nonlinear_arith)
        requires
            iw == (i as u128) * (width as u128),
            i <= n - 1,
    ;
    let x: u128 = iw / d;
    assert(x <= width) by (nonlinear_arith)
        requires
            x == iw / d,
            iw <= d * width,
            d >= 1,
    ;
    let gap: u64 = f.den - f.num;
    assert((height as u128) * (gap as u128) <= 0xffff_ffffu128 * 0xffff_ffff_ffff_ffffu128)
        by (nonlinear_arith)
        requires
            height <= 0xffff_ffffu128,
            gap <= 0xffff_ffff_ffff_ffffu128,
    ;
    let hd: u128 = (height as u128) * (gap as u128);
    assert(hd <= height as u128 * f.den as u128) by (nonlinear_arith)
        requires
            hd == (height as u128) * (gap as u128),
            gap <= f.den,
    ;
    let y: u128 = hd / (f.den as u128);
    assert(y <= height) by (nonlinear_arith)
        requires
            y == hd / (f.den as u128),
            hd <= height * f.den,
            f.den >= 1,
    ;
    Point { x: x as u32, y: y as u32 }
}

fn series_geometry(
    s: &Series,
    global_max: Option<u64>,
    n: usize,
    width: u32,
    height: u32,
) -> (g: SeriesGeometry)
    requires
        s.buffer.wf(),
        s.buffer@.len() == n,
        n >= 2,
    ensures
        geometry_of(g, s@, global_max, width, height),
{
    let scale = series_scale(s, global_max);
    let ghost fs = fractions_of(s@, global_max);
    let mut fractions: Vec<Fraction> = Vec::new();
    let mut points: Vec<Point> = Vec::new();
    let mut i: usize = 0;
    while i < n
        invariant
            s.buffer.wf(),
            s.buffer@.len() == n,
            n >= 2,
            scale == scale_of(global_max, s@.fixed_max, s@.samples),
            fs == fractions_of(s@, global_max),
            fs.len() == n,
            i <= n,
            fractions@.len() == i,
            points@.len() == i,
            forall|j: int| 0 <= j < i ==> fractions@[j] == fs[j],
            forall|j: int|
                0 <= j < i ==> points@[j] == point_of(j, n as nat, fs[j], width, height),
        decreases n - i,
    {
        let v = s.buffer.read(n - 1 - i);
        let f = Fraction { num: if v <= scale { v } else { scale }, den: scale };
        assert(f == fs[i as int]);
        let p = point_at(i, n, f, width, height);
        fractions.push(f);
        points.push(p);
        i = i + 1;
    }
    assert(fractions@ =~= fs);
    assert(points@ =~= points_of(fs, width, height));
    SeriesGeometry { label: s.label.clone(), color: s.color, fractions, points }
}

/// Every sample of a window of zeros leaves the largest sample at zero.
proof fn lemma_seq_max_zeros(s: Seq<u64>)
    requires
        forall|i: int| 0 <= i < s.len() ==> s[i] == 0,
    ensures
        seq_max(s) == 0,
    decreases s.len(),
{
    if s.len() > 0 {
        lemma_seq_max_zeros(s.drop_last());
    }
}

/// With a fixed maximum `m` and no graph override, a newly written sample
/// above `m` is drawn at the full height, and a newly written zero at the
/// baseline.
pub proof fn lemma_fixed_max_clamps(s: SeriesView, v: u64, m: u64)
    requires
        s.samples.len() >= 2,
        s.fixed_max == Some(m),
    ensures
        ({
            let t = SeriesView { samples: recorded(s.samples, v), ..s };
            let f = fractions_of(t, None).last();
            &&& v > m ==> f.num == f.den
            &&& v == 0 ==> f.num == 0
        }),
{
    let t = SeriesView { samples: recorded(s.samples, v), ..s };
    let n = t.samples.len();
    assert(n == s.samples.len());
    assert(t.samples.reverse()[n - 1] == v);
}

/// A series scaled from its own window whose samples are all zero is drawn
/// at fraction 0 everywhere, against a scale of 1.
pub proof fn lemma_zero_window(s: SeriesView)
    requires
        s.fixed_max is None,
        forall|i: int| 0 <= i < s.samples.len() ==> s.samples[i] == 0,
    ensures
        scale_of(None, s.fixed_max, s.samples) == 1,
        forall|i: int|
            0 <= i < s.samples.len() ==> (#[trigger] fractions_of(s, None)[i]) == (Fraction {
                num: 0,
                den: 1,
            }),
{
    lemma_seq_max_zeros(s.samples);
    assert forall|i: int| 0 <= i < s.samples.len() implies (#[trigger] fractions_of(s, None)[i]) == (
    Fraction { num: 0, den: 1 }) by {
        assert(s.samples.reverse()[i] == s.samples[s.samples.len() - 1 - i]);
    }
}

/// After `invalidate` and a render the graph is clean, and rendering the
/// clean graph again on the same canvas gives the same picture.
pub proof fn lemma_render_repeatable(
    g: GraphView,
    after: GraphView,
    r1: RenderGeometry,
    r2: RenderGeometry,
    width: u32,
    height: u32,
)
    requires
        rendered(r1, GraphView { dirty: true, ..g }, width, height),
        after == (GraphView { dirty: false, ..g }),
        rendered(r2, after, width, height),
    ensures
        !after.dirty,
        same_geometry(r1, r2),
{
    assert forall|k: int| 0 <= k < r1.series@.len() implies {
        &&& (#[trigger] r1.series@[k]).label@ == r2.series@[k].label@
        &&& r1.series@[k].color == r2.series@[k].color
        &&& r1.series@[k].fractions@ == r2.series@[k].fractions@
        &&& r1.series@[k].points@ == r2.series@[k].points@
    } by {
        assert(geometry_of(r1.series@[k], g.series[k], g.global_max, width, height));
        assert(geometry_of(r2.series@[k], g.series[k], g.global_max, width, height));
    }
}

} // verus!
