//! The Pareto front and the assembled chart.

use advent_of_wasm::chart::{graph, pareto, Series, SolutionStats};

fn stats(name: &str, file_size: u64, max_fuel: u64, yours: bool) -> SolutionStats {
    SolutionStats { name: name.to_owned(), file_size, max_fuel, yours }
}

#[test]
fn pareto_keeps_strict_improvements() {
    // ordered by file size; the third entry is dominated (50 < 70)
    let data = vec![
        stats("a", 10, 100, false),
        stats("b", 20, 50, false),
        stats("c", 30, 70, false),
    ];
    let front = pareto(&data);
    assert_eq!(front, vec![(10, 513), (10, 100), (20, 50), (513, 50)]);
}

#[test]
fn pareto_of_nothing_is_the_two_limits() {
    let data: Vec<SolutionStats> = Vec::new();
    assert_eq!(pareto(&data), vec![(513, 513), (513, 513)]);
}

#[test]
fn pareto_single_entry() {
    let data = vec![stats("a", 42, 7, true)];
    assert_eq!(pareto(&data), vec![(42, 513), (42, 7), (513, 7)]);
}

#[test]
fn graph_splits_series_by_ownership() {
    let data = vec![
        stats("a", 10, 100, true),
        stats("b", 20, 50, false),
        stats("c", 30, 40, true),
    ];
    let root = graph(&data);
    assert_eq!(root.title.text, "Pareto Front");
    assert_eq!(root.tooltip.formatter, "size,fuel = {c}");
    assert!(!root.grid.contain_label);
    assert_eq!(root.x_axis.kind, "log");
    assert_eq!(root.x_axis.name, "File Size");
    assert_eq!(root.x_axis.max, 512);
    assert_eq!(root.x_axis.log_base, 2);
    assert_eq!(root.y_axis.name, "Max Fuel");
    assert_eq!(root.series.len(), 4);
    match &root.series[0] {
        Series::Scatter { data } => assert_eq!(data, &vec![(10, 100), (30, 40)]),
        _ => panic!("expected a scatter series"),
    }
    match &root.series[1] {
        Series::Scatter { data } => assert_eq!(data, &vec![(20, 50)]),
        _ => panic!("expected a scatter series"),
    }
    match &root.series[2] {
        Series::Line { step, data } => {
            assert_eq!(step, "end");
            // the viewer's own front: both own entries are kept
            assert_eq!(data, &vec![(10, 513), (10, 100), (30, 40), (513, 40)]);
        },
        _ => panic!("expected a line series"),
    }
    match &root.series[3] {
        Series::Line { step, data } => {
            assert_eq!(step, "end");
            assert_eq!(data, &vec![(10, 513), (10, 100), (20, 50), (30, 40), (513, 40)]);
        },
        _ => panic!("expected a line series"),
    }
}
