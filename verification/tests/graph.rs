use std::collections::VecDeque;

use rtop::draw::graph::{Graph, GraphSymbol};

#[test]
fn render_rows_colored_returns_correct_count() {
    let mut graph = Graph::new(10, 4, GraphSymbol::Braille, false, false, 100, 0);
    let data: VecDeque<i64> = (0..10).map(|i| i * 10).collect();
    graph.create(&data);
    let gradient: Vec<String> = (0..=100)
        .map(|_| "\x1b[38;2;128;128;128m".to_string())
        .collect();
    let rows = graph.render_rows_colored(&data, &gradient);
    assert_eq!(rows.len(), 4);
}

fn percent_gradient() -> Vec<String> {
    (0..=100).map(|i| format!("G{i};")).collect()
}

#[test]
fn graph_symbol_from_config_defers_to_global_on_default() {
    assert_eq!(GraphSymbol::from_config("default", "block"), GraphSymbol::Block);
    assert_eq!(GraphSymbol::from_config("default", "braille"), GraphSymbol::Braille);
    assert_eq!(GraphSymbol::from_config("block", "braille"), GraphSymbol::Block);
    assert_eq!(GraphSymbol::from_config("braille", "block"), GraphSymbol::Braille);
    assert_eq!(GraphSymbol::from_config("anything", "block"), GraphSymbol::Braille);
}

#[test]
fn new_graph_has_at_least_one_row_and_default_range() {
    let mut g = Graph::new(4, 0, GraphSymbol::Braille, false, false, 0, 0);
    assert_eq!(g.height, 1);
    assert_eq!(g.max_value, 100);
    let rows = g.render_rows_colored(&VecDeque::new(), &[]);
    assert_eq!(rows, vec!["\x1b[0m".to_string()]);
    assert_eq!(g.render_row_colored(&VecDeque::new(), &[]), "\x1b[1C\x1b[1C\x1b[1C\x1b[1C\x1b[0m");
}

#[test]
fn single_row_braille_pairs_previous_and_current_levels() {
    let mut g = Graph::new(3, 1, GraphSymbol::Braille, false, false, 100, 0);
    let data: VecDeque<i64> = vec![0, 50, 100].into_iter().collect();
    assert_eq!(g.render_row_colored(&data, &[]), "\x1b[1C⢠⣼\x1b[0m");
}

#[test]
fn single_row_pads_left_and_colours_by_larger_sample() {
    let mut g = Graph::new(5, 1, GraphSymbol::Braille, false, false, 100, 0);
    let data: VecDeque<i64> = vec![100].into_iter().collect();
    let row = g.render_row_colored(&data, &percent_gradient());
    assert_eq!(row, "\x1b[1C\x1b[1C\x1b[1C\x1b[1CG100;⢸\x1b[0m");
}

#[test]
fn single_row_shows_only_last_width_samples() {
    let mut g = Graph::new(2, 1, GraphSymbol::Block, false, false, 100, 0);
    let data: VecDeque<i64> = vec![100, 0, 100].into_iter().collect();
    assert_eq!(g.render_row_colored(&data, &[]), " █\x1b[0m");
}

#[test]
fn multi_row_block_graph_splits_range_into_bands() {
    let mut g = Graph::new(2, 2, GraphSymbol::Block, false, false, 100, 0);
    let data: VecDeque<i64> = vec![100, 0].into_iter().collect();
    g.create(&data);
    let rows = g.render_rows_colored(&data, &[]);
    assert_eq!(rows, vec!["█ \x1b[0m".to_string(), "█ \x1b[0m".to_string()]);
}

#[test]
fn multi_row_colours_each_row_by_height() {
    let mut g = Graph::new(1, 4, GraphSymbol::Block, false, false, 100, 0);
    let data: VecDeque<i64> = vec![100].into_iter().collect();
    g.create(&data);
    let rows = g.render_rows_colored(&data, &percent_gradient());
    assert_eq!(rows[0], "G75;█\x1b[0m");
    assert_eq!(rows[3], "G0;█\x1b[0m");
}

#[test]
fn no_zero_floors_the_baseline_row() {
    let mut g = Graph::new(1, 2, GraphSymbol::Block, false, true, 100, 0);
    let data: VecDeque<i64> = vec![0].into_iter().collect();
    g.create(&data);
    let rows = g.render_rows_colored(&data, &[]);
    assert_eq!(rows, vec![" \x1b[0m".to_string(), "▄\x1b[0m".to_string()]);
}

#[test]
fn inverted_braille_uses_downward_glyphs() {
    let mut g = Graph::new(1, 1, GraphSymbol::Braille, true, false, 100, 0);
    let data: VecDeque<i64> = vec![100].into_iter().collect();
    assert_eq!(g.render_row_colored(&data, &[]), "⢸\x1b[0m");
}

#[test]
fn offset_and_max_value_scale_samples() {
    let mut g = Graph::new(1, 1, GraphSymbol::Block, false, false, 200, 100);
    let data: VecDeque<i64> = vec![200].into_iter().collect();
    assert_eq!(g.render_row_colored(&data, &[]), "▄\x1b[0m");
}
