//! Rules engine and move search for a chess variant in which control of the
//! board also drives an economy.
//!
//! The board is a set of twelve bit masks with the state that goes with them;
//! the rules are stated as specifications over the squares of those masks and
//! proved of the code that manipulates the bits.

pub mod arith;
pub mod attacks;
pub mod bits;
pub mod board;
pub mod candidates;
pub mod castling;
pub mod census;
pub mod consistency;
pub mod convert;
pub mod currency;
pub mod engine;
pub mod file;
pub mod generate;
pub mod invariants;
pub mod laws;
pub mod legality;
pub mod moves;
pub mod notation;
pub mod piece;
pub mod play;
pub mod rank;
pub mod sanity;
pub mod sector;
pub mod setup;
pub mod territory;
pub mod tile;
pub mod tile_set;
pub mod vision;
pub mod writing;

pub use board::Board;
pub use castling::CastlingRights;
pub use currency::Currency;
pub use engine::{
    best_move, legal_moves, minimax, select_best, Engine, Position, RandomEngine, Score,
};
pub use file::File;
pub use moves::Move;
pub use piece::{CastlingSide, Color, Piece, PieceType};
pub use rank::Rank;
pub use sector::Sector;
pub use tile::Tile;
pub use tile_set::TileSet;
