use cellular_automata::world_grid::grid_lines;

#[test]
fn lines_lie_on_multiples_of_the_cell_size() {
    assert_eq!(grid_lines(0, 48), vec![0, 16, 32, 48]);
    assert_eq!(grid_lines(1, 47), vec![16, 32]);
    assert_eq!(grid_lines(-40, 20), vec![-32, -16, 0, 16]);
    assert_eq!(grid_lines(-16, -16), vec![-16]);
    assert_eq!(grid_lines(-400, -369), vec![-400, -384]);
}

#[test]
fn span_without_a_line() {
    assert_eq!(grid_lines(1, 15), Vec::<i32>::new());
    assert_eq!(grid_lines(-15, -1), Vec::<i32>::new());
    assert_eq!(grid_lines(17, 16), Vec::<i32>::new());
    assert_eq!(grid_lines(100, -100), Vec::<i32>::new());
    assert_eq!(grid_lines(i32::MAX, i32::MIN), Vec::<i32>::new());
}

#[test]
fn lines_at_the_ends_of_the_range() {
    assert_eq!(grid_lines(i32::MIN, i32::MIN + 16), vec![i32::MIN, i32::MIN + 16]);
    assert_eq!(grid_lines(i32::MAX - 31, i32::MAX), vec![2147483616, 2147483632]);
    assert_eq!(grid_lines(i32::MAX - 14, i32::MAX), Vec::<i32>::new());
}

#[test]
fn a_screen_wide_span() {
    let lines = grid_lines(-400, 400);
    assert_eq!(lines.len(), 51);
    assert_eq!(lines[0], -400);
    assert_eq!(lines[50], 400);
    assert!(lines.windows(2).all(|pair| pair[1] == pair[0] + 16));
}
