# dice_game

A Tenzies-style dice game for the Soroban (Stellar) smart-contract platform,
played as commit-reveal with a single settlement, written in Verus.

`start_game` charges an entry fee and commits to one pseudo-random seed; the
game is then played off-chain; `claim` replays the player's sequence of hold
masks against the committed seed and pays out only if the dice become all
equal exactly at the last roll.

Layout:

- `src/dice.rs`: the keyed SplitMix64 die faces, dealing, rerolling, the win
  test, and their laws.
- `src/rules.rs`: the replay of a claimed sequence, the claim checks, the
  payout, the start guard, and the laws on which claims are paid.
- `src/strategy.rs`: the greedy reference strategy, proved to produce claims
  that the rules accept whenever it wins.
- `src/storage.rs`, `src/contract.rs`: the contract's storage and entry
  points. Each entry point takes the storage (modelled in `src/host.rs`), the
  ledger time and the other host values as arguments, decides, updates the
  storage, and returns the token transfer that settles the call.
- `app/lib.rs`: the `#[contract]` interface: it opens the storage, checks
  authorization, reads the ledger, calls the library and performs the
  transfer.
- `tests/`: scenario tests, run against the real `soroban-sdk` test host.
