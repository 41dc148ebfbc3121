//! A Tenzies-style dice game played as commit-reveal with a single
//! settlement: the whole game is a deterministic function of one committed
//! seed and the sequence of hold masks the player submits when claiming.

pub mod contract;
pub mod dice;
pub mod host;
pub mod rules;
pub mod storage;
pub mod strategy;
pub mod types;

pub use types::{DiceGame, Error, Session};
