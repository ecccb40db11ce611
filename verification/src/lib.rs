//! Account-quality filter for chess.com players: the rules that decide
//! whether a player passes, the caching and lookup protocol, the ordering of
//! results and the text the user interface shows.

pub mod text;
pub mod player;
pub mod checks;
pub mod cache;
pub mod ordering;
pub mod lookup;
pub mod form;
pub mod decode;
