use tokio_console::config::{ColorToggles, Palette};
use tokio_console::histogram::{bar_cells, chart_buckets, percentile_lines};
use tokio_console::styles::Styles;

fn styles() -> Styles {
    Styles {
        palette: Palette::NoColors,
        toggles: ColorToggles { color_durations: None, color_terminated: None },
        utf8: true,
    }
}

#[test]
fn leading_empty_buckets_are_dropped() {
    assert_eq!(chart_buckets(&[0, 0, 3, 0, 7, 1]), (vec![3, 0, 7, 1], 7));
    assert_eq!(chart_buckets(&[0, 0]), (vec![], 0));
    assert_eq!(chart_buckets(&[]), (vec![], 0));
}

#[test]
fn bars_fill_their_columns_in_eighths() {
    let rows = bar_cells(&[4, 1, 0, 2], 10, 2, None);
    assert_eq!(rows, vec![vec![8, 0, 0, 0], vec![8, 4, 0, 8]]);
    let narrow = bar_cells(&[4, 1, 0, 2], 2, 1, None);
    assert_eq!(narrow, vec![vec![8, 2]]);
    let tiny = bar_cells(&[1000, 1], 5, 1, None);
    assert_eq!(tiny, vec![vec![8, 1]]);
    let fixed = bar_cells(&[1, 2], 5, 1, Some(4));
    assert_eq!(fixed, vec![vec![2, 4]]);
    assert_eq!(bar_cells(&[], 5, 3, None), vec![Vec::<u8>::new(), vec![], vec![]]);
}

#[test]
fn percentiles_are_listed_with_their_durations() {
    let lines = percentile_lines(&[(5, 1_000), (50, 2_500_000)], &styles(), 2);
    let texts: Vec<Vec<String>> =
        lines.iter().map(|l| l.iter().map(|s| s.content.clone()).collect()).collect();
    assert_eq!(texts, vec![vec!["p 5: ", "1.00µs"], vec!["p50: ", "2.50ms"]]);
}
