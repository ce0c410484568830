use blau::colors::Color;
use blau::colors::Color::{Blank, Blue, Green, Orange, Purple, Red, Start};
use blau::game_state::GameState;
use blau::player_move::Move;
use rand::rngs::StdRng;
use rand::SeedableRng;

const ALL: [Color; 5] = [Blue, Orange, Green, Red, Purple];

/// A draw pile whose tiles come off in the order given by `top`, followed
/// by the rest of the hundred tiles color by color.
fn pile_with_top(top: &[Color]) -> Vec<Color> {
    let mut left = [20usize; 5];
    for c in top {
        left[c.index()] -= 1;
    }
    let mut rest = vec![];
    for c in ALL {
        for _ in 0..left[c.index()] {
            rest.push(c);
        }
    }
    let mut pile = rest;
    for c in top.iter().rev() {
        pile.push(*c);
    }
    assert_eq!(pile.len(), 100);
    pile
}

fn tiles_in_game(g: &GameState) -> usize {
    let offers: usize = g.factories().iter().map(|f| f.len()).sum();
    let center: usize = g.center().iter().sum();
    let boards: usize = g
        .players()
        .iter()
        .map(|p| {
            let staged: usize = p.working_count().iter().sum();
            let placed = p.played_tiles().iter().flatten().filter(|x| **x).count();
            let trashed = p.trashed_tiles().iter().filter(|c| c.is_movable()).count();
            staged + placed + trashed
        })
        .sum();
    g.tile_bag_len() + g.box_lid_len() + offers + center + boards
}

fn mv(factory_idx: usize, color: Color, working_row: usize) -> Move {
    Move {
        factory_idx,
        color,
        working_row,
    }
}

#[test]
fn new_game_is_set_up() {
    let mut rng = StdRng::seed_from_u64(7);
    let g = GameState::new(&["ann", "bob", "cid"], &mut rng);
    assert_eq!(g.players().len(), 3);
    assert_eq!(g.players()[1].display_name, "bob");
    assert_eq!(g.factories().len(), 7);
    assert!(g.factories().iter().all(|f| f.is_empty()));
    assert_eq!(g.center(), [0; 5]);
    assert!(g.has_start_token());
    assert_eq!(g.tile_bag_len(), 100);
    assert_eq!(g.box_lid_len(), 0);
    assert_eq!(g.round_number(), 0);
    assert_eq!(g.curr_player_idx(), 0);
    assert!(g.start_player_idx() < 3);
    assert!(!g.is_start_token_available());
    assert!(!g.is_finished());
    assert_eq!(tiles_in_game(&g), 100);
}

#[test]
fn a_lone_start_token_keeps_the_round_open() {
    let mut rng = StdRng::seed_from_u64(1);
    let g = GameState::new(&["ann", "bob"], &mut rng);
    // Nothing is on offer but the token.
    assert!(g.factories().iter().all(|f| f.is_empty()));
    assert_eq!(g.center(), [0; 5]);
    assert!(g.has_start_token());
    assert!(!g.is_round_over());
    assert!(g.valid_moves().is_empty());
}

#[test]
fn first_player_is_always_a_player() {
    for seed in 0..40 {
        let mut rng = StdRng::seed_from_u64(seed);
        let g = GameState::new(&["solo"], &mut rng);
        assert_eq!(g.start_player_idx(), 0);
        let mut rng = StdRng::seed_from_u64(seed);
        let mut g = GameState::new(&["a", "b", "c", "d"], &mut rng);
        assert!(g.start_player_idx() < 4);
        let first = g.start_player_idx();
        g.start_round();
        assert_eq!(g.curr_player_idx(), first);
        assert_eq!(g.start_player_idx(), 4);
    }
}

#[test]
fn new_game_shuffles_the_draw_pile() {
    let mut rng = StdRng::seed_from_u64(42);
    let mut g = GameState::new(&["ann", "bob"], &mut rng);
    g.start_round();
    // Dealt from the pile as it is built, the factories would repeat the
    // colors in their order.
    let unshuffled = vec![
        vec![Color::Purple, Color::Red, Color::Green, Color::Orange],
        vec![Color::Blue, Color::Purple, Color::Red, Color::Green],
        vec![Color::Orange, Color::Blue, Color::Purple, Color::Red],
        vec![Color::Green, Color::Orange, Color::Blue, Color::Purple],
        vec![Color::Red, Color::Green, Color::Orange, Color::Blue],
    ];
    assert_ne!(g.factories(), &unshuffled);
    assert_eq!(g.tile_bag_len(), 80);
    assert_eq!(tiles_in_game(&g), 100);
    assert!(g.factories().iter().flatten().all(|c| c.is_movable()));
}

#[test]
fn shuffled_pile_holds_twenty_of_each_color() {
    let mut rng = StdRng::seed_from_u64(3);
    // Twelve players have twenty-five factories, which take the whole pile.
    let names = ["a", "b", "c", "d", "e", "f", "g", "h", "i", "j", "k", "l"];
    let mut g = GameState::new(&names, &mut rng);
    g.start_round();
    assert_eq!(g.tile_bag_len(), 0);
    for c in ALL {
        let n = g.factories().iter().flatten().filter(|t| **t == c).count();
        assert_eq!(n, 20);
    }
}

#[test]
fn setup_checks_its_parts() {
    let pile = pile_with_top(&[]);
    assert!(GameState::from_setup(&["a", "b"], pile.clone(), 1).is_some());
    assert!(GameState::from_setup(&["a", "b"], pile.clone(), 2).is_none());
    assert!(GameState::from_setup(&[], pile.clone(), 0).is_none());
    let mut short = pile.clone();
    short.pop();
    assert!(GameState::from_setup(&["a"], short, 0).is_none());
    let mut marked = pile.clone();
    marked[17] = Color::Start;
    assert!(GameState::from_setup(&["a"], marked, 0).is_none());
    let mut blank = pile;
    blank[99] = Color::Blank;
    assert!(GameState::from_setup(&["a"], blank, 0).is_none());
}

#[test]
fn start_round_deals_from_the_end_of_the_pile() {
    let top = [
        Blue, Blue, Red, Green, // factory 0
        Orange, Orange, Orange, Orange, // factory 1
        Purple, Red, Red, Blue, // factory 2
    ];
    let mut g = GameState::from_setup(&["ann"], pile_with_top(&top), 0).unwrap();
    g.start_round();
    assert_eq!(g.factories()[0], vec![Blue, Blue, Red, Green]);
    assert_eq!(g.factories()[1], vec![Orange, Orange, Orange, Orange]);
    assert_eq!(g.factories()[2], vec![Purple, Red, Red, Blue]);
    assert_eq!(g.tile_bag_len(), 88);
    assert_eq!(g.round_number(), 1);
    assert_eq!(g.curr_player_idx(), 0);
    assert!(g.is_start_token_available());
    assert!(g.has_start_token());
    assert!(!g.is_round_over());
    assert_eq!(tiles_in_game(&g), 100);
}

#[test]
fn drafting_from_a_factory_spills_the_rest() {
    let top = [Blue, Blue, Red, Green, Orange, Orange, Orange, Orange];
    let mut g = GameState::from_setup(&["ann", "bob"], pile_with_top(&top), 1).unwrap();
    g.start_round();
    assert_eq!(g.curr_player_idx(), 1);
    assert_eq!(g.num_tiles_taken(&mv(1, Blue, 2)), Ok(2));
    assert_eq!(g.num_tiles_taken(&mv(1, Purple, 2)), Ok(0));
    assert_eq!(g.take_turn(&mv(1, Blue, 2)), Ok(false));
    assert!(g.factories()[0].is_empty());
    assert_eq!(g.center(), [0, 0, 1, 1, 0]);
    assert!(g.has_start_token());
    assert!(g.is_start_token_available());
    assert_eq!(g.players()[1].working_count(), [0, 0, 2, 0, 0]);
    assert_eq!(g.players()[1].working_color()[2], Blue);
    assert_eq!(g.curr_player_idx(), 0);
    assert_eq!(tiles_in_game(&g), 100);

    // The first draft from the center takes the token with it.
    assert_eq!(g.num_tiles_taken(&mv(0, Start, 0)), Ok(1));
    assert_eq!(g.take_turn(&mv(0, Red, 0)), Ok(false));
    assert_eq!(g.center(), [0, 0, 1, 0, 0]);
    assert!(!g.has_start_token());
    assert!(!g.is_start_token_available());
    assert_eq!(g.start_player_idx(), 0);
    assert_eq!(g.players()[0].working_count(), [1, 0, 0, 0, 0]);
    assert_eq!(g.players()[0].trashed_tiles(), &vec![Start]);
    assert_eq!(g.curr_player_idx(), 1);
    assert_eq!(tiles_in_game(&g), 100);

    // A later draft from the center finds no token.
    assert_eq!(g.take_turn(&mv(0, Green, 5)), Ok(false));
    assert_eq!(g.players()[1].trashed_tiles(), &vec![Green]);
    assert_eq!(g.center(), [0; 5]);
    assert_eq!(g.start_player_idx(), 0);
}

#[test]
fn refused_turns_change_nothing() {
    let top = [Blue, Blue, Red, Green];
    let mut g = GameState::from_setup(&["ann", "bob"], pile_with_top(&top), 0).unwrap();
    g.start_round();
    let factories = g.factories().clone();
    let check = |g: &GameState| {
        assert_eq!(g.factories(), &factories);
        assert_eq!(g.center(), [0; 5]);
        assert_eq!(g.curr_player_idx(), 0);
        assert!(g.has_start_token());
        assert_eq!(g.players()[0].working_count(), [0; 5]);
        assert!(g.players()[0].trashed_tiles().is_empty());
    };
    assert_eq!(
        g.take_turn(&mv(1, Start, 0)),
        Err("Start tiles are not movable.".to_string())
    );
    check(&g);
    assert_eq!(
        g.take_turn(&mv(1, Blue, 6)),
        Err("Cannot move to row 6.".to_string())
    );
    check(&g);
    assert_eq!(
        g.take_turn(&mv(1, Purple, 0)),
        Err("Color Purple is not in factory #1.".to_string())
    );
    check(&g);
    assert_eq!(
        g.take_turn(&mv(0, Blue, 0)),
        Err("Color Blue is not in the center.".to_string())
    );
    check(&g);
    assert_eq!(
        g.take_turn(&mv(6, Blue, 0)),
        Err("There is no factory #6.".to_string())
    );
    check(&g);
    assert_eq!(
        g.num_tiles_taken(&mv(0, Blank, 0)),
        Err("Color Blank is not in the center.".to_string())
    );
    assert_eq!(
        g.num_tiles_taken(&mv(77, Red, 0)),
        Err("There is no factory #77.".to_string())
    );
    assert_eq!(g.finish_round(&mut StdRng::seed_from_u64(0)), Err("round isn't over".to_string()));
    check(&g);

    // A board that refuses the tiles refuses the turn.
    assert_eq!(g.take_turn(&mv(1, Blue, 0)), Ok(false));
    assert_eq!(g.take_turn(&mv(0, Red, 1)), Ok(false));
    assert_eq!(
        g.take_turn(&mv(0, Green, 0)),
        Err("no room left in row 1".to_string())
    );
    assert_eq!(g.curr_player_idx(), 0);
    assert_eq!(g.center(), [0, 0, 1, 0, 0]);
}

#[test]
fn valid_moves_follow_sources_colors_and_rows() {
    let top = [Blue, Blue, Red, Green];
    let mut g = GameState::from_setup(&["ann"], pile_with_top(&top), 0).unwrap();
    g.start_round();
    let rows = [5, 0, 1, 2, 3, 4];
    let moves = g.valid_moves();
    // Factory 1 holds three colors; the two other factories hold the
    // tail of the sorted pile.
    let first: Vec<Move> = [Blue, Green, Red]
        .iter()
        .flat_map(|c| rows.iter().map(move |r| mv(1, *c, *r)))
        .collect();
    assert_eq!(&moves[..18], &first[..]);
    assert!(moves.iter().all(|m| m.factory_idx >= 1 && m.factory_idx <= 3));
    for m in &moves {
        let mut copy = g.clone();
        assert!(copy.take_turn(m).is_ok());
    }
    assert_eq!(g.take_turn(&mv(1, Blue, 0)), Ok(false));
    let moves = g.valid_moves();
    // Row 0 is full now, and the center offers green and red, last.
    assert!(moves.iter().all(|m| m.working_row != 0));
    let n = moves.len();
    let last: Vec<Move> = [Green, Red]
        .iter()
        .flat_map(|c| [5, 1, 2, 3, 4].into_iter().map(move |r| mv(0, *c, r)))
        .collect();
    assert_eq!(&moves[n - 10..], &last[..]);
}

#[test]
fn every_move_not_listed_is_refused() {
    let top = [Blue, Blue, Red, Green, Orange, Red, Red, Purple];
    let mut g = GameState::from_setup(&["ann", "bob"], pile_with_top(&top), 0).unwrap();
    g.start_round();
    assert_eq!(g.take_turn(&mv(2, Red, 1)), Ok(false));
    assert_eq!(g.take_turn(&mv(1, Blue, 1)), Ok(false));
    let listed = g.valid_moves();
    for factory_idx in 0..8 {
        for color in [Blue, Orange, Green, Red, Purple, Start, Blank] {
            for working_row in 0..8 {
                let m = mv(factory_idx, color, working_row);
                let mut copy = g.clone();
                assert_eq!(copy.take_turn(&m).is_ok(), listed.contains(&m), "{:?}", m);
            }
        }
    }
}

#[test]
fn round_ends_when_nothing_is_left() {
    // One player, three factories, each of one color.
    let top = [Blue, Blue, Blue, Blue, Red, Red, Red, Red, Green, Green, Green, Green];
    let mut g = GameState::from_setup(&["ann"], pile_with_top(&top), 0).unwrap();
    g.start_round();
    assert_eq!(g.take_turn(&mv(1, Blue, 3)), Ok(false));
    assert_eq!(g.take_turn(&mv(2, Red, 1)), Ok(false));
    // The factories are empty after this draft, but the token is still
    // in the center and nobody can take it.
    assert_eq!(g.take_turn(&mv(3, Green, 0)), Ok(false));
    assert!(g.factories().iter().all(|f| f.is_empty()));
    assert_eq!(g.center(), [0; 5]);
    assert!(g.has_start_token());
    assert!(!g.is_round_over());
    assert!(g.valid_moves().is_empty());
    assert_eq!(tiles_in_game(&g), 100);
}

#[test]
fn finish_round_scores_and_recycles() {
    let top = [Blue, Red, Red, Red, Green, Green, Orange, Orange, Purple, Purple, Purple, Blue];
    let mut g = GameState::from_setup(&["ann"], pile_with_top(&top), 0).unwrap();
    g.start_round();
    assert_eq!(g.take_turn(&mv(1, Blue, 0)), Ok(false)); // center: 3 red
    assert_eq!(g.take_turn(&mv(2, Green, 1)), Ok(false)); // center: 3 red, 2 orange
    assert_eq!(g.take_turn(&mv(3, Purple, 2)), Ok(false)); // center: + 1 blue
    assert_eq!(g.center(), [1, 2, 0, 3, 0]);
    assert_eq!(g.take_turn(&mv(0, Red, 5)), Ok(false)); // takes the token too
    assert_eq!(g.take_turn(&mv(0, Orange, 4)), Ok(false));
    assert_eq!(g.take_turn(&mv(0, Blue, 5)), Ok(true));
    assert!(g.is_round_over());
    assert_eq!(g.curr_player_idx(), 0);
    assert_eq!(
        g.players()[0].trashed_tiles(),
        &vec![Red, Red, Red, Start, Blue]
    );
    let mut rng = StdRng::seed_from_u64(5);
    assert_eq!(g.finish_round(&mut rng), Ok(false));
    // Rows 0, 1 and 2 are flushed: 1 + 1 + 1 points for tiles that do not
    // touch, and -1 -1 -2 -2 -2 for the trash.
    assert_eq!(played(&g, 0), vec![(0, 0), (1, 3), (2, 1)]);
    assert_eq!(g.players()[0].scores(), &vec![0]);
    assert_eq!(g.players()[0].working_count(), [0, 0, 0, 0, 2]);
    assert_eq!(g.players()[0].working_color()[4], Orange);
    // Returned: one green, two purple, three red, one blue.
    assert_eq!(g.box_lid_len(), 7);
    assert_eq!(g.tile_bag_len(), 88);
    assert_eq!(tiles_in_game(&g), 100);
    assert!(!g.is_finished());
    g.start_round();
    assert_eq!(g.round_number(), 2);
    assert_eq!(tiles_in_game(&g), 100);
}

fn played(g: &GameState, player: usize) -> Vec<(usize, usize)> {
    let grid = g.players()[player].played_tiles();
    let mut cells = vec![];
    for r in 0..5 {
        for c in 0..5 {
            if grid[r][c] {
                cells.push((r, c));
            }
        }
    }
    cells
}

#[test]
fn a_short_draw_pile_is_refilled_from_the_discards() {
    // Twelve players draw the whole pile in the first round.
    let names = ["a", "b", "c", "d", "e", "f", "g", "h", "i", "j", "k", "l"];
    let mixed: Vec<Color> = (0..100).map(|i| ALL[i % 5]).collect();
    let mut g = GameState::from_setup(&names, mixed, 0).unwrap();
    g.start_round();
    assert_eq!(g.tile_bag_len(), 0);
    // Everybody trashes whatever comes first.
    let mut over = false;
    while !over {
        let m = g.valid_moves()[0];
        assert_eq!(m.working_row, 5);
        over = g.take_turn(&m).unwrap();
        assert_eq!(tiles_in_game(&g), 100);
    }
    let mut rng = StdRng::seed_from_u64(11);
    assert_eq!(g.finish_round(&mut rng), Ok(false));
    assert_eq!(g.box_lid_len(), 0);
    assert_eq!(g.tile_bag_len(), 100);
    assert!(g.players().iter().all(|p| p.score() == 0));
    assert!(g.players().iter().all(|p| p.trashed_tiles().is_empty()));
}

#[test]
fn a_copy_of_a_game_goes_its_own_way() {
    let top = [Blue, Blue, Red, Green, Orange, Red, Red, Purple];
    let mut g = GameState::from_setup(&["ann", "bob"], pile_with_top(&top), 0).unwrap();
    g.start_round();
    let mut copy = g.clone();
    assert_eq!(format!("{:?}", copy), format!("{:?}", g));
    assert_eq!(copy.take_turn(&mv(1, Blue, 1)), Ok(false));
    assert_eq!(g.factories()[0].len(), 4);
    assert!(copy.factories()[0].is_empty());
    assert_eq!(g.curr_player_idx(), 0);
    assert_eq!(copy.curr_player_idx(), 1);
    assert_eq!(g.current_player().working_count(), [0; 5]);
    assert_eq!(copy.players()[0].working_count(), [0, 2, 0, 0, 0]);
}

#[test]
fn scores_are_listed_by_player() {
    let top = [Blue, Red, Red, Red, Green, Green, Orange, Orange, Purple, Purple, Purple, Blue];
    let mut g = GameState::from_setup(&["ann"], pile_with_top(&top), 0).unwrap();
    assert_eq!(g.player_scores(), vec![0]);
    assert!(g.has_score_room());
    g.start_round();
    for m in [mv(1, Blue, 0), mv(2, Green, 1), mv(3, Purple, 2), mv(0, Red, 4)] {
        assert_eq!(g.take_turn(&m), Ok(false));
    }
    assert_eq!(g.take_turn(&mv(0, Orange, 3)), Ok(false));
    assert_eq!(g.take_turn(&mv(0, Blue, 5)), Ok(true));
    assert_eq!(g.finish_round(&mut StdRng::seed_from_u64(0)), Ok(false));
    // Three tiles placed apart, and the token and one tile trashed.
    assert_eq!(g.player_scores(), vec![1]);
    assert_eq!(g.players()[0].scores(), &vec![1]);
}
