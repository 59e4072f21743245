use history_graph::graph::{Fraction, Point, RenderGeometry, SeriesGraph};

fn fraction_values(g: &RenderGeometry, k: usize) -> Vec<f64> {
    g.series[k]
        .fractions
        .iter()
        .map(|f| f.num as f64 / f.den as f64)
        .collect()
}

#[test]
fn dynamic_scale_scenario() {
    let mut g = SeriesGraph::new(4, None);
    let h = g.register_series("cpu", None, None);
    for v in [10u64, 20, 30, 40] {
        g.record(h, v);
    }
    assert_eq!(g.chronological(h), vec![10, 20, 30, 40]);
    assert_eq!(g.scale(h), 40);
    let r = g.render(300, 100);
    assert_eq!(fraction_values(&r, 0), vec![0.25, 0.5, 0.75, 1.0]);
}

#[test]
fn fixed_max_scenario() {
    let mut g = SeriesGraph::new(4, None);
    let h = g.register_series("cpu", None, Some(100));
    for v in [10u64, 20, 30, 40] {
        g.record(h, v);
    }
    assert_eq!(g.scale(h), 100);
    let r = g.render(300, 100);
    assert_eq!(fraction_values(&r, 0), vec![0.10, 0.20, 0.30, 0.40]);
}

#[test]
fn canvas_coordinates_scenario() {
    let mut g = SeriesGraph::new(4, None);
    let h = g.register_series("cpu", None, None);
    for v in [10u64, 20, 30, 40] {
        g.record(h, v);
    }
    let r = g.render(300, 100);
    let xs: Vec<u32> = r.series[0].points.iter().map(|p| p.x).collect();
    assert_eq!(xs, vec![0, 100, 200, 300]);
    let ys: Vec<u32> = r.series[0].points.iter().map(|p| p.y).collect();
    // y = 100 * (1 - f) for f = 0.25, 0.5, 0.75, 1
    assert_eq!(ys, vec![75, 50, 25, 0]);
}

#[test]
fn value_above_fixed_max_is_clamped() {
    let mut g = SeriesGraph::new(3, None);
    let h = g.register_series("temp", None, Some(50));
    g.record(h, 0);
    g.record(h, 500);
    let r = g.render(10, 10);
    let f = &r.series[0].fractions;
    assert_eq!(f[2], Fraction { num: 50, den: 50 });
    assert_eq!(f[1], Fraction { num: 0, den: 50 });
    assert_eq!(r.series[0].points[2], Point { x: 10, y: 0 });
    assert_eq!(r.series[0].points[1], Point { x: 5, y: 10 });
}

#[test]
fn all_zero_window_draws_at_baseline() {
    let mut g = SeriesGraph::new(5, None);
    let h = g.register_series("net", None, None);
    g.record(h, 0);
    assert_eq!(g.scale(h), 1);
    let r = g.render(40, 20);
    for f in &r.series[0].fractions {
        assert_eq!(*f, Fraction { num: 0, den: 1 });
    }
    for p in &r.series[0].points {
        assert_eq!(p.y, 20);
    }
}

#[test]
fn render_clears_dirty_and_repeats() {
    let mut g = SeriesGraph::new(3, None);
    assert!(g.is_dirty());
    let a = g.register_series("a", Some(1), None);
    let b = g.register_series("b", None, Some(8));
    g.record(a, 3);
    g.record(b, 12);
    g.invalidate();
    assert!(g.is_dirty());
    let r1 = g.render(60, 30);
    assert!(!g.is_dirty());
    let r2 = g.render(60, 30);
    assert!(!g.is_dirty());
    assert_eq!(r1.series.len(), r2.series.len());
    for k in 0..r1.series.len() {
        assert_eq!(r1.series[k].label, r2.series[k].label);
        assert_eq!(r1.series[k].color, r2.series[k].color);
        assert_eq!(r1.series[k].fractions, r2.series[k].fractions);
        assert_eq!(r1.series[k].points, r2.series[k].points);
    }
}

#[test]
fn record_does_not_mark_dirty() {
    let mut g = SeriesGraph::new(2, None);
    let h = g.register_series("a", None, None);
    g.render(1, 1);
    g.record(h, 4);
    assert!(!g.is_dirty());
    g.invalidate();
    g.invalidate();
    assert!(g.is_dirty());
}

#[test]
fn empty_graph_renders_nothing() {
    let mut g = SeriesGraph::new(2, Some(9));
    let r = g.render(100, 100);
    assert!(r.series.is_empty());
    assert!(!g.is_dirty());
}

#[test]
fn global_max_overrides_series_max() {
    let mut g = SeriesGraph::new(2, Some(200));
    let ram = g.register_series("RAM", Some(4), Some(10));
    let swap = g.register_series("Swap", Some(2), None);
    g.record(ram, 100);
    g.record(swap, 50);
    assert_eq!(g.scale(ram), 200);
    assert_eq!(g.scale(swap), 200);
    let r = g.render(2, 200);
    assert_eq!(r.series[0].label, "RAM");
    assert_eq!(r.series[0].color, Some(4));
    assert_eq!(r.series[0].fractions[1], Fraction { num: 100, den: 200 });
    assert_eq!(r.series[1].label, "Swap");
    assert_eq!(r.series[1].fractions[1], Fraction { num: 50, den: 200 });
    assert_eq!(r.series[1].points[1], Point { x: 2, y: 150 });
}

#[test]
fn series_keep_registration_order() {
    let mut g = SeriesGraph::new(2, None);
    assert_eq!(g.register_series("first", None, None), 0);
    assert_eq!(g.register_series("second", None, None), 1);
    assert_eq!(g.series_count(), 2);
    assert_eq!(g.window(), 2);
    g.record(1, 6);
    assert_eq!(g.read(1, 0), 6);
    assert_eq!(g.read(0, 0), 0);
}

#[test]
fn zero_fixed_max_counts_as_one() {
    let mut g = SeriesGraph::new(2, None);
    let h = g.register_series("a", None, Some(0));
    g.record(h, 3);
    assert_eq!(g.scale(h), 1);
    let r = g.render(4, 4);
    assert_eq!(r.series[0].fractions[1], Fraction { num: 1, den: 1 });
}
