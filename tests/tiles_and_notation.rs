use isopath::{Move, ParseError, Player, Tile};
use isopath::notation::parse_turn;

fn read(s: &str) -> Result<[Move; 2], String> {
    Move::move_from_string(s.to_string())
}

#[test]
fn tile_steps() {
    assert_eq!(Tile::High(false).reduce(), Tile::Normal);
    assert_eq!(Tile::Normal.reduce(), Tile::Low(false));
    assert_eq!(Tile::High(true).reduce(), Tile::High(true));
    assert_eq!(Tile::Low(false).reduce(), Tile::Low(false));
    assert_eq!(Tile::Low(true).reduce(), Tile::Low(true));
    assert_eq!(Tile::Low(false).increase(), Tile::Normal);
    assert_eq!(Tile::Normal.increase(), Tile::High(false));
    assert_eq!(Tile::Low(true).increase(), Tile::Low(true));
    assert_eq!(Tile::High(false).increase(), Tile::High(false));
    assert_eq!(Tile::High(true).switch(), Tile::High(false));
    assert_eq!(Tile::Low(false).switch(), Tile::Low(true));
    assert_eq!(Tile::Normal.switch(), Tile::Normal);
    assert!(Tile::High(true).occupied());
    assert!(Tile::Low(true).occupied());
    assert!(!Tile::Normal.occupied());
    assert!(!Tile::High(false).occupied());
}

#[test]
fn tile_pictures() {
    assert_eq!(Tile::High(true).repr(), "+OO+");
    assert_eq!(Tile::High(false).repr(), "++++");
    assert_eq!(Tile::Normal.repr(), "====");
    assert_eq!(Tile::Low(true).repr(), "-XX-");
    assert_eq!(Tile::Low(false).repr(), "----");
}

#[test]
fn player_switch() {
    assert_eq!(Player::Top.switch(), Player::Bottom);
    assert_eq!(Player::Bottom.switch(), Player::Top);
}

#[test]
fn reads_two_moves() {
    assert_eq!(read("t5-6 p1:2"), Ok([Move::TileMove(4, 5), Move::PieceMove(0, 1)]));
    assert_eq!(read("c34 p29@30"), Ok([Move::Capture(33), Move::PieceMove(28, 29)]));
    assert_eq!(read("p37;36 t10-11-12 extra"), Ok([Move::PieceMove(36, 35), Move::TileMove(9, 10)]));
    assert_eq!(read("tt5-6t c+7"), Ok([Move::TileMove(4, 5), Move::Capture(6)]));
}

#[test]
fn too_few_moves() {
    assert_eq!(read("t5-6"), Err("Each turn consists of two moves".to_string()));
    assert_eq!(read(""), Err("Each turn consists of two moves".to_string()));
}

#[test]
fn missing_second_cell() {
    assert_eq!(read("t5 p1-2"), Err("A tile move must contain two coordinates".to_string()));
    assert_eq!(read("p1-2 p7"), Err("A piece move must contain two coordinates".to_string()));
}

#[test]
fn bad_numbers() {
    assert_eq!(read("cab p1-2"), Err("There was an error parsing a move".to_string()));
    assert_eq!(read("t5-x p1-2"), Err("There was an error parsing a move".to_string()));
    assert_eq!(read("t-5 p1-2"), Err("There was an error parsing a move".to_string()));
    assert_eq!(
        read("c99999999999999999999999 p1-2"),
        Err("There was an error parsing a move".to_string())
    );
    // a malformed number is reported before one off the board
    assert_eq!(read("t0-x p1-2"), Err("There was an error parsing a move".to_string()));
}

#[test]
fn off_the_board() {
    assert_eq!(read("c0 p1-2"), Err("The move was off the board".to_string()));
    assert_eq!(read("c38 p1-2"), Err("The move was off the board".to_string()));
    assert_eq!(read("t1-38 p1-2"), Err("The move was off the board".to_string()));
    assert_eq!(read("p1-2 p0-5"), Err("The move was off the board".to_string()));
}

#[test]
fn no_move_kind() {
    assert_eq!(read("x1 p1-2"), Err("No move was selected".to_string()));
    assert_eq!(read(" p1-2"), Err("No move was selected".to_string()));
    assert_eq!(read("p1-2 "), Err("No move was selected".to_string()));
}

#[test]
fn first_word_error_comes_first() {
    assert_eq!(read("x1 c0"), Err("No move was selected".to_string()));
}

#[test]
fn parse_turn_errors() {
    let cs: Vec<char> = "c5 q".chars().collect();
    assert_eq!(parse_turn(&cs), Err(ParseError::NoMoveKind));
    let cs: Vec<char> = "c5 c6".chars().collect();
    assert_eq!(parse_turn(&cs), Ok([Move::Capture(4), Move::Capture(5)]));
}
