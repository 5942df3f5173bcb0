use navi::life::GameOfLife;

fn board(rows: &[&str]) -> GameOfLife {
    let cells: Vec<Vec<bool>> = rows.iter().map(|r| r.chars().map(|c| c == '#').collect()).collect();
    GameOfLife { width: rows[0].len(), height: rows.len(), cells, ticks: 0 }
}

fn show(g: &GameOfLife) -> Vec<String> {
    g.cells.iter().map(|r| r.iter().map(|&c| if c { '#' } else { '.' }).collect()).collect()
}

#[test]
fn blinker_oscillates() {
    let mut g = board(&[".....", "..#..", "..#..", "..#..", "....."]);
    g.tick();
    assert_eq!(show(&g), vec![".....", ".....", ".###.", ".....", "....."]);
    assert_eq!(g.ticks, 1);
    g.tick();
    assert_eq!(show(&g), vec![".....", "..#..", "..#..", "..#..", "....."]);
}

#[test]
fn edges_wrap_around() {
    // a vertical blinker across the top and bottom edge
    let mut g = board(&["..#..", ".....", ".....", "..#..", "..#.."]);
    g.tick();
    assert_eq!(show(&g), vec![".....", ".....", ".....", ".....", ".###."]);
}

#[test]
fn empty_board_only_counts() {
    let mut g = GameOfLife::default();
    g.tick();
    assert_eq!(g.ticks, 1);
    assert!(g.cells.is_empty());
}

#[test]
fn resize_and_reset_keep_the_shape() {
    let mut g = GameOfLife::default();
    g.resize(7, 3);
    assert_eq!(g.cells.len(), 3);
    assert!(g.cells.iter().all(|r| r.len() == 7));
    g.ticks = 9;
    let before = g.cells.clone();
    g.resize(7, 3);
    assert_eq!(g.cells, before);
    g.reset();
    assert_eq!(g.ticks, 0);
    assert_eq!(g.cells.len(), 3);
}
