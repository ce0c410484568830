use blau::board::{COL_BONUS, KIND_BONUS, ROW_BONUS};
use blau::colors::Color;
use blau::player_state::{played_color, played_column, score_tile, PlayerState};

fn with_grid(name: &str, grid: [[bool; 5]; 5]) -> PlayerState {
    PlayerState::from_parts(name, grid, [0; 5], [Color::Blank; 5], vec![], vec![]).unwrap()
}

#[test]
fn scoring_a_tile() {
    let mut grid = [[false; 5]; 5];
    grid[2][2] = true;
    assert_eq!(score_tile(&grid, 2, 2), 1);
    grid[2][4] = true;
    assert_eq!(score_tile(&grid, 2, 4), 1);
    grid[2][3] = true;
    assert_eq!(score_tile(&grid, 2, 3), 3);
    grid[1][3] = true;
    assert_eq!(score_tile(&grid, 1, 3), 2);
    grid[3][3] = true;
    assert_eq!(score_tile(&grid, 3, 3), 3);
    assert_eq!(score_tile(&grid, 2, 3), 6);
}

#[test]
fn scoring_kind_bonuses() {
    let mut grid = [[false; 5]; 5];
    for j in 0..5 {
        grid[j][j] = true;
    }
    grid[0][1] = true;
    let mut p = with_grid("jim", grid);
    assert_eq!(p.num_full_colors(), 1);
    p.score_bonuses();
    assert_eq!(p.scores(), &vec![0, 0, KIND_BONUS]);

    grid[0][0] = false;
    let p = with_grid("jim", grid);
    assert_eq!(p.num_full_colors(), 0);
}

#[test]
fn scoring_column_bonuses() {
    let mut grid = [[false; 5]; 5];
    for j in 0..5 {
        grid[j][3] = true;
    }
    grid[0][0] = true;
    let mut p = with_grid("fred", grid);
    assert_eq!(p.num_full_columns(), 1);
    p.score_bonuses();
    assert_eq!(p.scores(), &vec![0, COL_BONUS, 0]);
}

#[test]
fn scoring_row_bonuses() {
    let mut p = PlayerState::new("harry");
    p.score_bonuses();
    assert_eq!(p.scores(), &vec![0, 0, 0]);

    let mut grid = [[false; 5]; 5];
    for j in 0..5 {
        grid[1][j] = true;
    }
    grid[0][0] = true;
    let mut p = with_grid("harry", grid);
    assert_eq!(p.num_full_rows(), 1);
    p.score_bonuses();
    assert_eq!(p.scores(), &vec![ROW_BONUS, 0, 0]);
}

#[test]
fn scoring_round() {
    let mut p = PlayerState::new("tom");
    assert_eq!(p.score_round(), Ok(vec![]));
    assert_eq!(p.scores(), &vec![0]);

    assert_eq!(p.add_tiles(0, Color::Blue, 1), Ok(()));
    assert_eq!(p.score_round(), Ok(vec![]));
    assert_eq!(p.scores(), &vec![0, 1]);

    assert_eq!(p.add_tiles(1, Color::Purple, 2), Ok(()));
    assert_eq!(p.score_round(), Ok(vec![Color::Purple]));
    assert_eq!(p.scores(), &vec![0, 1, 2]);
    assert_eq!(p.score(), 3);

    assert_eq!(p.add_tiles(0, Color::Red, 5), Ok(()));
    assert_eq!(
        p.score_round(),
        Ok(vec![Color::Red, Color::Red, Color::Red, Color::Red])
    );
    assert_eq!(p.scores(), &vec![0, 1, 2, -3]);
    assert_eq!(p.score(), 0);
}

#[test]
fn adding_tiles() {
    let mut p = PlayerState::new("dave");

    assert_eq!(p.add_tiles(5, Color::Red, 1), Ok(()));
    assert_eq!(p.trashed_tiles(), &vec![Color::Red]);
    assert_eq!(p.score(), 0);

    assert_eq!(
        p.add_tiles(6, Color::Blue, 3),
        Err("invalid row".to_string())
    );
    assert_eq!(
        p.add_tiles(0, Color::Start, 1),
        Err("the start tile can only be trashed".to_string())
    );

    assert_eq!(p.add_tiles(0, Color::Orange, 2), Ok(()));
    assert_eq!(p.trashed_tiles(), &vec![Color::Red, Color::Orange]);
    assert_eq!(p.working_count(), [1, 0, 0, 0, 0]);
    assert_eq!(p.working_color()[0], Color::Orange);

    assert_eq!(
        p.add_tiles(0, Color::Orange, 1),
        Err("no room left in row 1".to_string())
    );

    assert_eq!(p.add_tiles(4, Color::Green, 3), Ok(()));
    assert_eq!(p.trashed_tiles(), &vec![Color::Red, Color::Orange]);
    assert_eq!(p.working_count(), [1, 0, 0, 0, 3]);
    assert_eq!(p.working_color()[4], Color::Green);

    assert_eq!(
        p.add_tiles(4, Color::Purple, 1),
        Err("working row 5 is locked to color Green".to_string())
    );
    let mut grid = p.played_tiles();
    grid[1][played_column(1, Color::Orange)] = true;
    let mut p = PlayerState::from_parts(
        "dave",
        grid,
        p.working_count(),
        p.working_color(),
        p.trashed_tiles().clone(),
        p.scores().clone(),
    )
    .unwrap();
    assert_eq!(
        p.add_tiles(1, Color::Orange, 2),
        Err("color Orange has already been played in row 2".to_string())
    );
}

#[test]
fn overflow_goes_to_the_trash() {
    let mut p = PlayerState::new("eve");
    assert_eq!(p.add_tiles(0, Color::Green, 2), Ok(()));
    assert_eq!(p.working_count(), [1, 0, 0, 0, 0]);
    assert_eq!(p.working_color()[0], Color::Green);
    assert_eq!(p.trashed_tiles(), &vec![Color::Green]);
}

#[test]
fn score_never_drops_below_zero() {
    // A total of 2, then a round with one tile placed alone (+1) and four
    // tiles trashed (-1 -1 -2 -2): -5 in all, which is cut to -2.
    let mut p = PlayerState::from_parts(
        "floor",
        [[false; 5]; 5],
        [0; 5],
        [Color::Blank; 5],
        vec![],
        vec![2],
    )
    .unwrap();
    assert_eq!(p.score(), 2);
    assert_eq!(p.add_tiles(0, Color::Green, 1), Ok(()));
    p.send_to_trash(Color::Blue, 4);
    assert_eq!(p.score_round(), Ok(vec![Color::Blue; 4]));
    assert_eq!(p.scores(), &vec![2, -2]);
    assert_eq!(p.score(), 0);
}

#[test]
fn score_floor_leaves_smaller_losses_alone() {
    let mut p = PlayerState::from_parts(
        "floor",
        [[false; 5]; 5],
        [0; 5],
        [Color::Blank; 5],
        vec![],
        vec![7],
    )
    .unwrap();
    p.send_to_trash(Color::Blue, 4);
    assert_eq!(p.score_round(), Ok(vec![Color::Blue; 4]));
    assert_eq!(p.scores(), &vec![7, -6]);
    assert_eq!(p.score(), 1);
}

#[test]
fn penalties_stop_after_seven_tiles() {
    let mut p = PlayerState::from_parts(
        "heavy",
        [[false; 5]; 5],
        [0; 5],
        [Color::Blank; 5],
        vec![],
        vec![100],
    )
    .unwrap();
    p.send_to_trash(Color::Red, 9);
    assert_eq!(p.score_round(), Ok(vec![Color::Red; 9]));
    assert_eq!(p.scores(), &vec![100, -14]);
    let mut q = PlayerState::from_parts(
        "light",
        [[false; 5]; 5],
        [0; 5],
        [Color::Blank; 5],
        vec![],
        vec![100],
    )
    .unwrap();
    q.send_to_trash(Color::Red, 3);
    assert_eq!(q.score_round(), Ok(vec![Color::Red; 3]));
    assert_eq!(q.scores(), &vec![100, -4]);
}

#[test]
fn start_token_is_penalised_but_not_returned() {
    let mut p = PlayerState::from_parts(
        "first",
        [[false; 5]; 5],
        [0; 5],
        [Color::Blank; 5],
        vec![],
        vec![10],
    )
    .unwrap();
    p.send_to_trash(Color::Blue, 1);
    p.send_to_trash(Color::Start, 1);
    p.send_to_trash(Color::Red, 1);
    assert_eq!(p.score_round(), Ok(vec![Color::Blue, Color::Red]));
    assert_eq!(p.scores(), &vec![10, -4]);
    assert!(p.trashed_tiles().is_empty());
}

#[test]
fn blocked_row_is_refused_and_changes_nothing() {
    let mut grid = [[false; 5]; 5];
    grid[2][played_column(2, Color::Red)] = true;
    let mut p = PlayerState::from_parts(
        "stuck",
        grid,
        [1, 0, 3, 0, 0],
        [Color::Blue, Color::Blank, Color::Red, Color::Blank, Color::Blank],
        vec![Color::Green],
        vec![4],
    )
    .unwrap();
    assert_eq!(
        p.score_round(),
        Err("color Red has already been played in row 3".to_string())
    );
    assert_eq!(p.played_tiles(), grid);
    assert_eq!(p.working_count(), [1, 0, 3, 0, 0]);
    assert_eq!(p.working_color()[0], Color::Blue);
    assert_eq!(p.trashed_tiles(), &vec![Color::Green]);
    assert_eq!(p.scores(), &vec![4]);
}

#[test]
fn flushed_rows_score_against_the_grid_as_it_grows() {
    // Rows 0 and 1 are full and their cells touch: (0,0) and (1,0).
    let mut p = PlayerState::new("stack");
    assert_eq!(p.add_tiles(0, Color::Blue, 1), Ok(()));
    assert_eq!(p.add_tiles(1, Color::Purple, 2), Ok(()));
    assert_eq!(played_column(0, Color::Blue), 0);
    assert_eq!(played_column(1, Color::Purple), 0);
    assert_eq!(p.score_round(), Ok(vec![Color::Purple]));
    // The first tile is alone (1), the second makes a vertical run of two (2).
    assert_eq!(p.scores(), &vec![3]);
    assert_eq!(p.working_count(), [0; 5]);
    assert_eq!(p.working_color(), [Color::Blank; 5]);
    assert!(p.played_tiles()[0][0] && p.played_tiles()[1][0]);
}

#[test]
fn valid_moves_lists_trash_then_open_rows() {
    let mut p = PlayerState::new("rows");
    assert_eq!(p.valid_moves(Color::Blue), vec![5, 0, 1, 2, 3, 4]);
    assert_eq!(p.add_tiles(0, Color::Blue, 1), Ok(()));
    assert_eq!(p.add_tiles(2, Color::Red, 1), Ok(()));
    assert_eq!(p.valid_moves(Color::Blue), vec![5, 1, 3, 4]);
    assert_eq!(p.valid_moves(Color::Red), vec![5, 1, 2, 3, 4]);
    assert_eq!(p.score_round(), Ok(vec![]));
    // Blue now has its cell in row 0.
    assert_eq!(p.valid_moves(Color::Blue), vec![5, 1, 3, 4]);
    assert_eq!(p.valid_moves(Color::Green), vec![5, 0, 1, 3, 4]);
}

#[test]
fn columns_and_colors_are_inverse() {
    let all = [Color::Blue, Color::Orange, Color::Green, Color::Red, Color::Purple];
    for row in 0..5 {
        for c in all {
            let col = played_column(row, c);
            assert_eq!(col, (c.index() + row) % 5);
            assert_eq!(played_color(row, col), c.index());
        }
    }
    assert_eq!(played_column(3, Color::Purple), 2);
    assert_eq!(played_color(3, 2), 4);
}

#[test]
fn bonuses_count_rows_columns_and_colors() {
    let mut p = with_grid("all", [[true; 5]; 5]);
    assert_eq!(p.num_full_rows(), 5);
    assert_eq!(p.num_full_columns(), 5);
    assert_eq!(p.num_full_colors(), 5);
    p.score_bonuses();
    assert_eq!(p.scores(), &vec![10, 35, 50]);
    assert_eq!(p.score(), 95);
}

#[test]
fn from_parts_refuses_ill_formed_boards() {
    let blank = [Color::Blank; 5];
    let grid = [[false; 5]; 5];
    assert!(PlayerState::from_parts("a", grid, [2, 0, 0, 0, 0], blank, vec![], vec![]).is_none());
    assert!(PlayerState::from_parts("a", grid, [1, 2, 3, 4, 5], blank, vec![], vec![]).is_some());
    assert!(PlayerState::from_parts("a", grid, [0; 5], blank, vec![], vec![-1]).is_none());
    assert!(PlayerState::from_parts("a", grid, [0; 5], blank, vec![], vec![1, -2, 5]).is_none());
    assert!(
        PlayerState::from_parts("a", grid, [0; 5], blank, vec![], vec![i32::MAX, 1]).is_none()
    );
    assert!(PlayerState::from_parts("a", grid, [0; 5], blank, vec![], vec![3, -3, 0]).is_some());
}

#[test]
fn a_clone_is_independent() {
    let mut p = PlayerState::new("one");
    assert_eq!(p.add_tiles(3, Color::Green, 2), Ok(()));
    let mut q = p.clone();
    assert_eq!(q.add_tiles(3, Color::Green, 5), Ok(()));
    assert_eq!(p.working_count(), [0, 0, 0, 2, 0]);
    assert_eq!(q.working_count(), [0, 0, 0, 4, 0]);
    assert_eq!(q.trashed_tiles(), &vec![Color::Green; 3]);
    assert!(p.trashed_tiles().is_empty());
    assert_eq!(q.display_name, "one");
    assert!(p.is_new_working_row(0));
    assert!(!p.is_new_working_row(3));
    assert!(!p.is_new_working_row(5));
}
