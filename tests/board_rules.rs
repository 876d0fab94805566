use isopath::adjacency::get_adjacent;
use isopath::{IsoPath, Move, Player, Tile, TurnError};

fn starting_cells() -> [Tile; 37] {
    let mut cells = [Tile::Normal; 37];
    for i in 0..4 {
        cells[i] = Tile::High(true);
        cells[36 - i] = Tile::Low(true);
    }
    cells
}

fn snapshot(game: &IsoPath) -> (Vec<Tile>, Player) {
    ((0..37).map(|i| game.tile(i)).collect(), game.turn())
}

#[test]
fn new_board_layout() {
    let game = IsoPath::new();
    for i in 0..37 {
        let expected = if i < 4 {
            Tile::High(true)
        } else if i >= 33 {
            Tile::Low(true)
        } else {
            Tile::Normal
        };
        assert_eq!(game.tile(i), expected);
    }
    assert_eq!(game.turn(), Player::Top);
}

#[test]
fn adjacency_is_symmetric() {
    for a in 0..37 {
        for b in 0..37 {
            assert_eq!(get_adjacent(a).contains(&b), get_adjacent(b).contains(&a), "{} {}", a, b);
        }
    }
}

#[test]
fn adjacency_degree_bounds() {
    for a in 0..37 {
        let n = get_adjacent(a);
        assert!(n.len() >= 2 && n.len() <= 6, "cell {} has {}", a, n.len());
        let mut sorted = n.clone();
        sorted.sort();
        sorted.dedup();
        assert_eq!(sorted.len(), n.len());
    }
}

#[test]
fn adjacency_examples() {
    let mut n = get_adjacent(0);
    n.sort();
    assert_eq!(n, vec![1, 3, 4, 5]);
    let mut n = get_adjacent(15);
    n.sort();
    assert_eq!(n, vec![9, 16, 21, 22]);
    let mut n = get_adjacent(18);
    n.sort();
    assert_eq!(n, vec![11, 12, 17, 19, 24, 25]);
    let mut n = get_adjacent(36);
    n.sort();
    assert_eq!(n, vec![31, 32, 33, 35]);
    let mut n = get_adjacent(25);
    n.sort();
    assert_eq!(n, vec![18, 19, 24, 26, 30, 31]);
}

#[test]
fn initial_board_rejects_blocked_piece_move() {
    let mut game = IsoPath::new();
    let before = snapshot(&game);
    let r = game.apply_turn([Move::PieceMove(0, 3), Move::TileMove(4, 5)]);
    assert_eq!(r, Err(TurnError::SecondMoveIllegal));
    assert_eq!(snapshot(&game), before);
}

#[test]
fn constructed_board_allows_piece_move() {
    let mut cells = starting_cells();
    cells[3] = Tile::High(false);
    let mut game = IsoPath::from_cells(cells, Player::Top);
    let r = game.apply_turn([Move::PieceMove(0, 3), Move::TileMove(4, 5)]);
    assert_eq!(r, Ok(()));
    assert_eq!(game.tile(0), Tile::High(false));
    assert_eq!(game.tile(3), Tile::High(true));
    assert_eq!(game.tile(4), Tile::Low(false));
    assert_eq!(game.tile(5), Tile::High(false));
    assert_eq!(game.turn(), Player::Bottom);
}

#[test]
fn terrain_applied_before_piece_move() {
    // the piece may only step onto cell 5 once the terrain move has raised it
    let mut cells = starting_cells();
    cells[0] = Tile::Normal;
    cells[1] = Tile::High(true);
    let mut game = IsoPath::from_cells(cells, Player::Top);
    let r = game.apply_turn([Move::PieceMove(1, 5), Move::TileMove(10, 5)]);
    assert_eq!(r, Ok(()));
    assert_eq!(game.tile(1), Tile::High(false));
    assert_eq!(game.tile(5), Tile::High(true));
    assert_eq!(game.tile(10), Tile::Low(false));
}

#[test]
fn same_kind_pair_rejected() {
    let mut game = IsoPath::new();
    let before = snapshot(&game);
    assert_eq!(
        game.apply_turn([Move::TileMove(4, 5), Move::TileMove(6, 7)]),
        Err(TurnError::InvalidCombination)
    );
    assert_eq!(
        game.apply_turn([Move::Capture(33), Move::Capture(34)]),
        Err(TurnError::InvalidCombination)
    );
    assert_eq!(
        game.apply_turn([Move::PieceMove(0, 4), Move::PieceMove(1, 5)]),
        Err(TurnError::InvalidCombination)
    );
    assert_eq!(snapshot(&game), before);
}

#[test]
fn first_move_illegal_keeps_board() {
    let mut game = IsoPath::new();
    let before = snapshot(&game);
    // terrain cannot leave an occupied raised cell
    let r = game.apply_turn([Move::TileMove(0, 5), Move::PieceMove(0, 4)]);
    assert_eq!(r, Err(TurnError::FirstMoveIllegal));
    assert_eq!(snapshot(&game), before);
}

#[test]
fn second_move_illegal_rolls_back_terrain() {
    let mut game = IsoPath::new();
    let before = snapshot(&game);
    let r = game.apply_turn([Move::TileMove(10, 11), Move::Capture(20)]);
    assert_eq!(r, Err(TurnError::SecondMoveIllegal));
    assert_eq!(snapshot(&game), before);
}

#[test]
fn second_move_illegal_rolls_back_capture() {
    let mut cells = starting_cells();
    cells[10] = Tile::Low(true);
    cells[4] = Tile::High(true);
    cells[5] = Tile::High(true);
    let mut game = IsoPath::from_cells(cells, Player::Top);
    let before = snapshot(&game);
    let r = game.apply_turn([Move::PieceMove(1, 6), Move::Capture(10)]);
    assert_eq!(r, Err(TurnError::SecondMoveIllegal));
    assert_eq!(snapshot(&game), before);
}

#[test]
fn home_row_terrain_refused_for_top() {
    let mut game = IsoPath::new();
    assert_eq!(
        game.apply_turn([Move::TileMove(2, 5), Move::PieceMove(0, 4)]),
        Err(TurnError::FirstMoveIllegal)
    );
    let mut cells = starting_cells();
    cells[2] = Tile::High(false);
    let mut game = IsoPath::from_cells(cells, Player::Top);
    assert_eq!(
        game.apply_turn([Move::TileMove(2, 5), Move::PieceMove(1, 2)]),
        Err(TurnError::FirstMoveIllegal)
    );
    assert_eq!(game.turn(), Player::Top);
}

#[test]
fn home_row_terrain_refused_for_bottom() {
    let mut cells = starting_cells();
    cells[34] = Tile::Low(false);
    let mut game = IsoPath::from_cells(cells, Player::Bottom);
    assert_eq!(
        game.apply_turn([Move::TileMove(20, 34), Move::PieceMove(33, 34)]),
        Err(TurnError::FirstMoveIllegal)
    );
    // the same terrain move is allowed to Top
    let mut game = IsoPath::from_cells(cells, Player::Top);
    assert_eq!(game.apply_turn([Move::TileMove(20, 34), Move::PieceMove(0, 4)]), Err(TurnError::SecondMoveIllegal));
    assert_eq!(game.tile(34), Tile::Low(false));
}

#[test]
fn capture_with_one_flanker_fails() {
    let mut cells = starting_cells();
    cells[10] = Tile::Low(true);
    cells[4] = Tile::High(true);
    cells[1] = Tile::Normal;
    cells[17] = Tile::Normal;
    let mut game = IsoPath::from_cells(cells, Player::Top);
    let before = snapshot(&game);
    // terrain goes first, so the capture is the second move
    let r = game.apply_turn([Move::Capture(10), Move::TileMove(20, 21)]);
    assert_eq!(r, Err(TurnError::SecondMoveIllegal));
    assert_eq!(snapshot(&game), before);
}

#[test]
fn capture_with_two_flankers_succeeds() {
    let mut cells = starting_cells();
    cells[10] = Tile::Low(true);
    cells[4] = Tile::High(true);
    cells[5] = Tile::High(true);
    let mut game = IsoPath::from_cells(cells, Player::Top);
    let r = game.apply_turn([Move::TileMove(20, 21), Move::Capture(10)]);
    assert_eq!(r, Ok(()));
    assert_eq!(game.tile(10), Tile::Low(false));
    assert_eq!(game.tile(20), Tile::Low(false));
    assert_eq!(game.tile(21), Tile::High(false));
    assert_eq!(game.turn(), Player::Bottom);
}

#[test]
fn bottom_captures_with_two_flankers() {
    let mut cells = starting_cells();
    cells[27] = Tile::High(true);
    cells[32] = Tile::Low(true);
    cells[33] = Tile::Low(false);
    let mut game = IsoPath::from_cells(cells, Player::Bottom);
    // of the cells 27 touches (20, 21, 26, 32) only 32 holds a piece of Bottom
    assert_eq!(
        game.apply_turn([Move::Capture(27), Move::TileMove(10, 11)]),
        Err(TurnError::SecondMoveIllegal)
    );
    assert_eq!(game.tile(10), Tile::Normal);
    let mut cells2 = cells;
    cells2[26] = Tile::Low(true);
    let mut game = IsoPath::from_cells(cells2, Player::Bottom);
    assert_eq!(game.apply_turn([Move::Capture(27), Move::TileMove(10, 11)]), Ok(()));
    assert_eq!(game.tile(27), Tile::High(false));
    assert_eq!(game.tile(10), Tile::Low(false));
    assert_eq!(game.tile(11), Tile::High(false));
    assert_eq!(game.turn(), Player::Top);
}

#[test]
fn turn_alternates_only_on_success() {
    let mut game = IsoPath::new();
    assert_eq!(game.apply_turn([Move::TileMove(10, 11), Move::PieceMove(0, 4)]), Err(TurnError::SecondMoveIllegal));
    assert_eq!(game.turn(), Player::Top);
    assert_eq!(game.apply_turn([Move::TileMove(9, 4), Move::PieceMove(0, 4)]), Ok(()));
    assert_eq!(game.turn(), Player::Bottom);
    assert_eq!(game.tile(4), Tile::High(true));
    assert_eq!(game.tile(0), Tile::High(false));
    assert_eq!(game.tile(9), Tile::Low(false));
    assert_eq!(game.apply_turn([Move::TileMove(32, 12), Move::PieceMove(36, 32)]), Ok(()));
    assert_eq!(game.turn(), Player::Top);
    assert_eq!(game.tile(32), Tile::Low(true));
    assert_eq!(game.tile(36), Tile::Low(false));
    assert_eq!(game.tile(12), Tile::High(false));
}

#[test]
fn terrain_move_on_one_level_cell_is_no_change() {
    let mut game = IsoPath::new();
    assert_eq!(game.apply_turn([Move::TileMove(12, 12), Move::Capture(33)]), Err(TurnError::SecondMoveIllegal));
    assert_eq!(game.tile(12), Tile::Normal);
}

#[test]
fn make_move_reports_text() {
    let mut game = IsoPath::new();
    assert_eq!(
        game.make_move([Move::TileMove(4, 5), Move::TileMove(6, 7)]),
        Err("This move-combination is not allowed".to_string())
    );
    assert_eq!(
        game.make_move([Move::TileMove(0, 5), Move::PieceMove(0, 4)]),
        Err("The first move was illegal".to_string())
    );
    assert_eq!(
        game.make_move([Move::PieceMove(0, 3), Move::TileMove(4, 5)]),
        Err("The second move was illegal".to_string())
    );
    assert_eq!(game.make_move([Move::TileMove(9, 4), Move::PieceMove(0, 4)]), Ok(String::new()));
    assert_eq!(game.turn(), Player::Bottom);
}

#[test]
fn move_legal_matches_rules() {
    let game = IsoPath::new();
    assert!(game.move_legal(Move::TileMove(4, 5)));
    assert!(!game.move_legal(Move::TileMove(4, 33)));
    assert!(!game.move_legal(Move::PieceMove(0, 3)));
    assert!(!game.move_legal(Move::PieceMove(0, 9)));
    assert!(!game.move_legal(Move::Capture(33)));
}
