//! The contract's entry points. Each takes the contract's storage, the
//! ledger time and the other host values it needs as arguments, makes every
//! decision, updates the storage, and gives back the token transfer that the
//! call settles with. The code that runs a contract call opens the storage,
//! checks authorization (a refused authorization aborts the whole call, and
//! with it every storage update), reads the host values and performs the
//! transfer.

use vstd::prelude::*;

use crate::host::{instance_entries, session_entries, u32_items, InstanceStore, SessionStore};
use crate::rules::{
    check_claim, check_initialize, check_reserve, check_start, claim_rules, new_session, reconfigure,
    session_spec, start_rules,
};
use crate::storage::{
    clear_session, config_exists, entry_of_session, load_config, load_session, save_config,
    save_session, stored_config, stored_session, CONFIG_KEY,
};
use crate::types::{Config, DiceGame, Error, Session};

verus! {

/// A token transfer that a contract call settles with: `amount` of the
/// token at `token`, from `from` to `to`.
pub struct Transfer {
    pub token: soroban_sdk::Address,
    pub from: soroban_sdk::Address,
    pub to: soroban_sdk::Address,
    pub amount: i128,
}

/// The stored configuration entries.
pub type ConfigEntries = Map<
    u32,
    (soroban_sdk::Address, soroban_sdk::Address, i128, u32, u32, u64),
>;

/// The stored session entries.
pub type SessionEntries = Map<soroban_sdk::Address, (u64, u32, u64, i128, u32)>;

/// What `start_game` answers: the new session and the entry-fee transfer
/// from the player to the contract, or why the game cannot start.
pub open spec fn start_game_spec(
    config: ConfigEntries,
    sessions: SessionEntries,
    player: soroban_sdk::Address,
    contract: soroban_sdk::Address,
    now: u64,
    seed: u64,
) -> Result<(Session, Transfer), Error> {
    match stored_config(config) {
        Err(e) => Err(e),
        Ok(c) => match start_rules(stored_session(sessions, player), now) {
            Err(e) => Err(e),
            Ok(()) => match session_spec(c, seed, now) {
                Err(e) => Err(e),
                Ok(s) => Ok(
                    (s, Transfer { token: c.token, from: player, to: contract, amount: c.entry_fee }),
                ),
            },
        },
    }
}

/// What `claim` answers: the payout transfer from the contract to the
/// player, or why the claim is refused: no stored session, the claim rules
/// on the stored session, no configuration, or a reserve below the payout.
pub open spec fn claim_spec(
    config: ConfigEntries,
    sessions: SessionEntries,
    player: soroban_sdk::Address,
    contract: soroban_sdk::Address,
    masks: Seq<u32>,
    now: u64,
    reserve: i128,
) -> Result<Transfer, Error> {
    match stored_session(sessions, player) {
        None => Err(Error::NoActiveSession),
        Some(s) => match claim_rules(s, now, masks) {
            Err(e) => Err(e),
            Ok(payout) => match stored_config(config) {
                Err(e) => Err(e),
                Ok(c) => if reserve < payout {
                    Err(Error::InsufficientReserve)
                } else {
                    Ok(Transfer { token: c.token, from: contract, to: player, amount: payout })
                },
            },
        },
    }
}

/// The configuration entries after the admin retunes the terms: the admin
/// and the token stay.
pub open spec fn retuned_entries(
    config: ConfigEntries,
    entry_fee: i128,
    payout_multiplier_bps: u32,
    max_rolls: u32,
    round_seconds: u64,
) -> ConfigEntries {
    config.insert(
        CONFIG_KEY,
        (
            config[CONFIG_KEY].0,
            config[CONFIG_KEY].1,
            entry_fee,
            payout_multiplier_bps,
            max_rolls,
            round_seconds,
        ),
    )
}

/// Once a configuration is stored, setup is refused: `initialize`
/// succeeds at most once.
pub proof fn lemma_initialize_at_most_once(
    config: ConfigEntries,
    entry: (soroban_sdk::Address, soroban_sdk::Address, i128, u32, u32, u64),
)
    ensures
        config.insert(CONFIG_KEY, entry).contains_key(CONFIG_KEY),
        stored_config(config.insert(CONFIG_KEY, entry)) is Ok,
{
}

/// A session pays at most once: after a paid claim, which removes the
/// session, every claim by the same player is answered `NoActiveSession`
/// until a new game starts.
pub proof fn lemma_session_pays_at_most_once(
    config: ConfigEntries,
    sessions: SessionEntries,
    player: soroban_sdk::Address,
    contract: soroban_sdk::Address,
    masks: Seq<u32>,
    now: u64,
    reserve: i128,
    later_config: ConfigEntries,
    later_contract: soroban_sdk::Address,
    later_masks: Seq<u32>,
    later_now: u64,
    later_reserve: i128,
)
    requires
        claim_spec(config, sessions, player, contract, masks, now, reserve) is Ok,
    ensures
        claim_spec(
            later_config,
            sessions.remove(player),
            player,
            later_contract,
            later_masks,
            later_now,
            later_reserve,
        ) == Err::<Transfer, Error>(Error::NoActiveSession),
{
}

/// One running session per player: once a game has started, a new start by
/// the same player before the session's deadline is answered
/// `SessionActive`.
pub proof fn lemma_running_session_blocks_start(
    config: ConfigEntries,
    sessions: SessionEntries,
    player: soroban_sdk::Address,
    contract: soroban_sdk::Address,
    now: u64,
    seed: u64,
    later_contract: soroban_sdk::Address,
    later_now: u64,
    later_seed: u64,
)
    requires
        start_game_spec(config, sessions, player, contract, now, seed) is Ok,
        later_now < start_game_spec(config, sessions, player, contract, now, seed)->Ok_0.0.deadline_ts,
    ensures
        start_game_spec(
            config,
            sessions.insert(
                player,
                entry_of_session(start_game_spec(config, sessions, player, contract, now, seed)->Ok_0.0),
            ),
            player,
            later_contract,
            later_now,
            later_seed,
        ) == Err::<(Session, Transfer), Error>(Error::SessionActive),
{
}

/// A stored session whose deadline has passed does not block a new game:
/// with the contract set up, the new game starts (unless its own deadline
/// overflows) and replaces it.
pub proof fn lemma_expired_session_is_replaced(
    config: ConfigEntries,
    sessions: SessionEntries,
    player: soroban_sdk::Address,
    contract: soroban_sdk::Address,
    now: u64,
    seed: u64,
)
    requires
        stored_config(config) is Ok,
        stored_session(sessions, player) is Some,
        now >= stored_session(sessions, player)->Some_0.deadline_ts,
        now + stored_config(config)->Ok_0.round_seconds <= u64::MAX,
    ensures
        start_game_spec(config, sessions, player, contract, now, seed) is Ok,
{
}

/// Retuning the configuration changes no claim's answer: stored sessions
/// keep the terms they were started with, and the token stays.
pub proof fn lemma_set_config_keeps_claims(
    config: ConfigEntries,
    entry_fee: i128,
    payout_multiplier_bps: u32,
    max_rolls: u32,
    round_seconds: u64,
    sessions: SessionEntries,
    player: soroban_sdk::Address,
    contract: soroban_sdk::Address,
    masks: Seq<u32>,
    now: u64,
    reserve: i128,
)
    requires
        config.contains_key(CONFIG_KEY),
    ensures
        claim_spec(
            retuned_entries(config, entry_fee, payout_multiplier_bps, max_rolls, round_seconds),
            sessions,
            player,
            contract,
            masks,
            now,
            reserve,
        ) == claim_spec(config, sessions, player, contract, masks, now, reserve),
{
}

/// Retuning replaces the four terms by the ones given and keeps the admin
/// and the token.
pub proof fn lemma_retuned_entries_fields(
    config: ConfigEntries,
    entry_fee: i128,
    payout_multiplier_bps: u32,
    max_rolls: u32,
    round_seconds: u64,
)
    ensures
        retuned_entries(config, entry_fee, payout_multiplier_bps, max_rolls, round_seconds).contains_key(
            CONFIG_KEY,
        ),
        retuned_entries(config, entry_fee, payout_multiplier_bps, max_rolls, round_seconds)[CONFIG_KEY]
            == (
            config[CONFIG_KEY].0,
            config[CONFIG_KEY].1,
            entry_fee,
            payout_multiplier_bps,
            max_rolls,
            round_seconds,
        ),
{
}

/// A started game commits to the seed it is given, whatever session was
/// stored before; it snapshots the configured terms, runs for the
/// configured round length from `now`, and owes the configured entry fee
/// from the player to the contract.
pub proof fn lemma_start_game_terms(
    config: ConfigEntries,
    sessions: SessionEntries,
    player: soroban_sdk::Address,
    contract: soroban_sdk::Address,
    now: u64,
    seed: u64,
)
    ensures
        start_game_spec(config, sessions, player, contract, now, seed) matches Ok((s, fee)) ==> {
            let c = config[CONFIG_KEY];
            &&& config.contains_key(CONFIG_KEY)
            &&& s.seed == seed
            &&& s.max_rolls == c.4
            &&& s.deadline_ts == now + c.5
            &&& s.entry_fee == c.2
            &&& s.payout_multiplier_bps == c.3
            &&& fee.token == c.1
            &&& fee.from == player
            &&& fee.to == contract
            &&& fee.amount == c.2
        },
        !config.contains_key(CONFIG_KEY) ==> start_game_spec(
            config,
            sessions,
            player,
            contract,
            now,
            seed,
        ) == Err::<(Session, Transfer), Error>(Error::NotInitialized),
{
}

/// A paid claim pays the stored session's payout, no more than the reserve,
/// in the configured token, from the contract to the player; a claim with
/// no stored session is answered `NoActiveSession`.
pub proof fn lemma_claim_transfer(
    config: ConfigEntries,
    sessions: SessionEntries,
    player: soroban_sdk::Address,
    contract: soroban_sdk::Address,
    masks: Seq<u32>,
    now: u64,
    reserve: i128,
)
    ensures
        !sessions.contains_key(player) ==> claim_spec(
            config,
            sessions,
            player,
            contract,
            masks,
            now,
            reserve,
        ) == Err::<Transfer, Error>(Error::NoActiveSession),
        claim_spec(config, sessions, player, contract, masks, now, reserve) matches Ok(t) ==> {
            let e = sessions[player];
            let s = Session {
                seed: e.0,
                max_rolls: e.1,
                deadline_ts: e.2,
                entry_fee: e.3,
                payout_multiplier_bps: e.4,
            };
            &&& sessions.contains_key(player)
            &&& config.contains_key(CONFIG_KEY)
            &&& now < e.2
            &&& claim_rules(s, now, masks) == Ok::<i128, Error>(t.amount)
            &&& t.amount <= reserve
            &&& t.token == config[CONFIG_KEY].1
            &&& t.from == contract
            &&& t.to == player
        },
{
}

impl DiceGame {
    /// One-time setup right after deploy, by the intended admin (the admin
    /// authorizes the call). A second call is refused and changes nothing.
    pub fn initialize(
        config_store: &mut InstanceStore,
        admin: soroban_sdk::Address,
        token: soroban_sdk::Address,
        entry_fee: i128,
        payout_multiplier_bps: u32,
        max_rolls: u32,
        round_seconds: u64,
    ) -> (r: Result<(), Error>)
        ensures
            r == (if instance_entries(*old(config_store)).contains_key(CONFIG_KEY) {
                Err(Error::AlreadyInitialized)
            } else {
                Ok::<(), Error>(())
            }),
            r is Ok ==> instance_entries(*final(config_store)) == instance_entries(
                *old(config_store),
            ).insert(
                CONFIG_KEY,
                (admin, token, entry_fee, payout_multiplier_bps, max_rolls, round_seconds),
            ),
            r is Err ==> instance_entries(*final(config_store)) == instance_entries(
                *old(config_store),
            ),
    {
        let config_stored = config_exists(config_store);
        match check_initialize(config_stored) {
            Ok(()) => {},
            Err(e) => return Err(e),
        }
        let config = Config {
            admin,
            token,
            entry_fee,
            payout_multiplier_bps,
            max_rolls,
            round_seconds,
        };
        save_config(config_store, &config);
        Ok(())
    }

    /// The player (who authorizes the call) starts a game at ledger time
    /// `now` with the pseudo-random `seed`: refused when the contract is not
    /// set up or the player's stored session is still running. Otherwise the
    /// new session, which snapshots the configured terms, replaces the
    /// player's stored one, and the entry fee is owed from the player to the
    /// contract. Other players' sessions are untouched.
    pub fn start_game(
        config_store: &InstanceStore,
        sessions: &mut SessionStore,
        player: soroban_sdk::Address,
        contract: soroban_sdk::Address,
        now: u64,
        seed: u64,
    ) -> (r: Result<(Session, Transfer), Error>)
        ensures
            r == start_game_spec(
                instance_entries(*config_store),
                session_entries(*old(sessions)),
                player,
                contract,
                now,
                seed,
            ),
            r matches Ok((s, _)) ==> session_entries(*final(sessions)) == session_entries(
                *old(sessions),
            ).insert(player, entry_of_session(s)),
            r matches Ok((s, fee)) ==> {
                let c = instance_entries(*config_store)[CONFIG_KEY];
                &&& instance_entries(*config_store).contains_key(CONFIG_KEY)
                &&& s.seed == seed
                &&& s.max_rolls == c.4
                &&& s.deadline_ts == now + c.5
                &&& s.entry_fee == c.2
                &&& s.payout_multiplier_bps == c.3
                &&& fee.token == c.1
                &&& fee.from == player
                &&& fee.to == contract
                &&& fee.amount == c.2
                &&& session_entries(*final(sessions)).contains_key(player)
                &&& session_entries(*final(sessions))[player] == (
                    seed,
                    c.4,
                    (now + c.5) as u64,
                    c.2,
                    c.3,
                )
            },
            r is Err ==> session_entries(*final(sessions)) == session_entries(*old(sessions)),
    {
        let config = match load_config(config_store) {
            Ok(c) => c,
            Err(e) => return Err(e),
        };
        let existing = load_session(sessions, &player);
        match check_start(&existing, now) {
            Ok(()) => {},
            Err(e) => return Err(e),
        }
        let session = match new_session(&config, seed, now) {
            Ok(s) => s,
            Err(e) => return Err(e),
        };
        save_session(sessions, &player, &session);
        let fee = Transfer { token: config.token, from: player, to: contract, amount: config.entry_fee };
        Ok((session, fee))
    }

    /// Verifies a win and settles it. `hold_mask_sequence` is the player's
    /// full history of hold choices, one entry per roll, its position being
    /// the roll index; it is replayed against the stored session by the
    /// rules of `claim_rules`, at ledger time `now`, with `reserve` the
    /// contract's balance of the configured token. A paid claim removes the
    /// session, so a session pays at most once; a refused claim changes
    /// nothing. A losing game is never claimed: its session just expires.
    pub fn claim(
        env: &soroban_sdk::Env,
        config_store: &InstanceStore,
        sessions: &mut SessionStore,
        player: soroban_sdk::Address,
        contract: soroban_sdk::Address,
        hold_mask_sequence: &soroban_sdk::Vec<u32>,
        now: u64,
        reserve: i128,
    ) -> (r: Result<Transfer, Error>)
        ensures
            r == claim_spec(
                instance_entries(*config_store),
                session_entries(*old(sessions)),
                player,
                contract,
                u32_items(*hold_mask_sequence),
                now,
                reserve,
            ),
            r is Ok ==> session_entries(*final(sessions)) == session_entries(*old(sessions)).remove(
                player,
            ),
            r is Ok ==> !session_entries(*final(sessions)).contains_key(player),
            !session_entries(*old(sessions)).contains_key(player) ==> r == Err::<Transfer, Error>(
                Error::NoActiveSession,
            ),
            r matches Ok(t) ==> {
                let e = session_entries(*old(sessions))[player];
                let s = Session {
                    seed: e.0,
                    max_rolls: e.1,
                    deadline_ts: e.2,
                    entry_fee: e.3,
                    payout_multiplier_bps: e.4,
                };
                &&& session_entries(*old(sessions)).contains_key(player)
                &&& instance_entries(*config_store).contains_key(CONFIG_KEY)
                &&& now < e.2
                &&& claim_rules(s, now, u32_items(*hold_mask_sequence)) == Ok::<i128, Error>(
                    t.amount,
                )
                &&& t.amount <= reserve
                &&& t.token == instance_entries(*config_store)[CONFIG_KEY].1
                &&& t.from == contract
                &&& t.to == player
            },
            r is Err ==> session_entries(*final(sessions)) == session_entries(*old(sessions)),
    {
        let session = match load_session(sessions, &player) {
            Some(s) => s,
            None => return Err(Error::NoActiveSession),
        };
        let payout = match check_claim(env, &session, now, hold_mask_sequence) {
            Ok(p) => p,
            Err(e) => return Err(e),
        };
        let config = match load_config(config_store) {
            Ok(c) => c,
            Err(e) => return Err(e),
        };
        match check_reserve(payout, reserve) {
            Ok(()) => {},
            Err(e) => return Err(e),
        }
        clear_session(sessions, &player);
        Ok(Transfer { token: config.token, from: contract, to: player, amount: payout })
    }

    /// Public read of a player's stored session; no authorization needed.
    pub fn get_session(sessions: &SessionStore, player: &soroban_sdk::Address) -> (r: Option<
        Session,
    >)
        ensures
            r == stored_session(session_entries(*sessions), *player),
    {
        load_session(sessions, player)
    }

    /// Public read of the stored configuration.
    pub fn get_config(config_store: &InstanceStore) -> (r: Result<Config, Error>)
        ensures
            r == stored_config(instance_entries(*config_store)),
    {
        load_config(config_store)
    }

    /// Admin-only (the stored admin authorizes the call) tuning of the
    /// game's terms; the admin and the token stay. Stored sessions keep the
    /// terms they were started with.
    pub fn set_config(
        config_store: &mut InstanceStore,
        entry_fee: i128,
        payout_multiplier_bps: u32,
        max_rolls: u32,
        round_seconds: u64,
    ) -> (r: Result<(), Error>)
        ensures
            r == (match stored_config(instance_entries(*old(config_store))) {
                Err(e) => Err(e),
                Ok(_) => Ok::<(), Error>(()),
            }),
            r is Ok ==> instance_entries(*final(config_store)) == retuned_entries(
                instance_entries(*old(config_store)),
                entry_fee,
                payout_multiplier_bps,
                max_rolls,
                round_seconds,
            ),
            r is Ok ==> instance_entries(*final(config_store)).contains_key(CONFIG_KEY),
            r is Ok ==> instance_entries(*final(config_store))[CONFIG_KEY] == (
                instance_entries(*old(config_store))[CONFIG_KEY].0,
                instance_entries(*old(config_store))[CONFIG_KEY].1,
                entry_fee,
                payout_multiplier_bps,
                max_rolls,
                round_seconds,
            ),
            r is Ok ==> (stored_config(instance_entries(*final(config_store))) matches Ok(c) && c.admin
                == instance_entries(*old(config_store))[CONFIG_KEY].0 && c.token
                == instance_entries(*old(config_store))[CONFIG_KEY].1 && c.entry_fee == entry_fee
                && c.payout_multiplier_bps == payout_multiplier_bps && c.max_rolls == max_rolls
                && c.round_seconds == round_seconds),
            r is Err ==> instance_entries(*final(config_store)) == instance_entries(
                *old(config_store),
            ),
    {
        let config = match load_config(config_store) {
            Ok(c) => c,
            Err(e) => return Err(e),
        };
        let updated = reconfigure(config, entry_fee, payout_multiplier_bps, max_rolls, round_seconds);
        save_config(config_store, &updated);
        Ok(())
    }

    /// Anyone (`from`, who authorizes the call) may top up the house
    /// reserve: `amount` of the configured token moves from `from` to the
    /// contract.
    pub fn deposit(
        config_store: &InstanceStore,
        from: soroban_sdk::Address,
        contract: soroban_sdk::Address,
        amount: i128,
    ) -> (r: Result<Transfer, Error>)
        ensures
            r == (match stored_config(instance_entries(*config_store)) {
                Err(e) => Err(e),
                Ok(c) => Ok((Transfer { token: c.token, from, to: contract, amount })),
            }),
    {
        let config = match load_config(config_store) {
            Ok(c) => c,
            Err(e) => return Err(e),
        };
        Ok(Transfer { token: config.token, from, to: contract, amount })
    }

    /// Admin-only (the stored admin authorizes the call) withdrawal from the
    /// house reserve: `amount` of the configured token moves from the
    /// contract to the stored admin.
    pub fn withdraw(config_store: &InstanceStore, contract: soroban_sdk::Address, amount: i128) -> (r:
        Result<Transfer, Error>)
        ensures
            r == (match stored_config(instance_entries(*config_store)) {
                Err(e) => Err(e),
                Ok(c) => Ok((Transfer { token: c.token, from: contract, to: c.admin, amount })),
            }),
    {
        let config = match load_config(config_store) {
            Ok(c) => c,
            Err(e) => return Err(e),
        };
        Ok(Transfer { token: config.token, from: contract, to: config.admin, amount })
    }
}

} // verus!
