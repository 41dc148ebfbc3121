//! The game's data: its error codes and the per-player session.

use vstd::prelude::*;

verus! {

/// Why a contract call was refused.
#[derive(Copy, Clone, Debug, PartialEq, Eq, Structural)]
pub enum Error {
    AlreadyInitialized,
    NotInitialized,
    SessionActive,
    NoActiveSession,
    SessionExpired,
    MaxRollsReached,
    NotWon,
    Overflow,
    InsufficientReserve,
    InvalidHoldMask,
    InvalidRollSequence,
}

/// The game's configuration, set by the admin.
pub struct Config {
    pub admin: soroban_sdk::Address,
    pub token: soroban_sdk::Address,
    pub entry_fee: i128,
    pub payout_multiplier_bps: u32,
    pub max_rolls: u32,
    pub round_seconds: u64,
}

/// One player's committed game. The whole game is a deterministic function
/// of `seed` and the hold masks later submitted to `claim`, so nothing else
/// is tracked between `start_game` and `claim`; the fee terms are a snapshot
/// of the configuration at `start_game` time.
#[derive(Copy, Clone, Debug, PartialEq, Eq, Structural)]
pub struct Session {
    pub seed: u64,
    pub max_rolls: u32,
    pub deadline_ts: u64,
    pub entry_fee: i128,
    pub payout_multiplier_bps: u32,
}

/// The dice game contract.
pub struct DiceGame;

} // verus!
