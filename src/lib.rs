//! Rule engine for a two-player board game on a 37-cell hourglass board.
pub mod adjacency;
pub mod board;
pub mod notation;
pub mod tile;

pub use board::IsoPath;
pub use board::TurnError;
pub use notation::ParseError;
pub use tile::Move;
pub use tile::Player;
pub use tile::Tile;
