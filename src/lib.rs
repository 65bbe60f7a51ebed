//! Driving a chess analysis engine over its line protocol: parsing the
//! engine's `info` lines, turning principal variations into standard
//! notation, batching multi-line results and deciding when to surface them.

pub mod text;
pub mod score;
pub mod info;
pub mod board;
pub mod payload;
pub mod aggregator;
pub mod session;
