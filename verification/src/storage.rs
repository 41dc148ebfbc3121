//! Where the game keeps its state: the configuration in the contract's
//! instance storage, each player's session in persistent storage under the
//! player's address. Every read or write of an entry bumps its time to live
//! so that nothing is archived out from under a game in progress.

use vstd::prelude::*;

use crate::host::{instance_entries, session_entries, InstanceStore, SessionStore};
use crate::types::{Config, Error, Session};

verus! {

/// Ledgers close roughly every 5s on testnet, so 17280 ledgers is about a
/// day: an entry whose time to live falls below this is bumped.
pub const LIFETIME_THRESHOLD: u32 = 17280;

/// The time to live, in ledgers (about two days), that a bump gives.
pub const BUMP_AMOUNT: u32 = 34560;

/// The instance-storage key of the configuration.
pub const CONFIG_KEY: u32 = 0;

/// The configuration that a stored entry `(admin, token, entry_fee,
/// payout_multiplier_bps, max_rolls, round_seconds)` holds.
pub open spec fn config_of_entry(
    entry: (soroban_sdk::Address, soroban_sdk::Address, i128, u32, u32, u64),
) -> Config {
    Config {
        admin: entry.0,
        token: entry.1,
        entry_fee: entry.2,
        payout_multiplier_bps: entry.3,
        max_rolls: entry.4,
        round_seconds: entry.5,
    }
}

/// The session that a stored entry `(seed, max_rolls, deadline_ts,
/// entry_fee, payout_multiplier_bps)` holds.
pub open spec fn session_of_entry(entry: (u64, u32, u64, i128, u32)) -> Session {
    Session {
        seed: entry.0,
        max_rolls: entry.1,
        deadline_ts: entry.2,
        entry_fee: entry.3,
        payout_multiplier_bps: entry.4,
    }
}

/// Reads the configuration out of what the instance storage gave back:
/// `NotInitialized` when there is no entry.
pub fn config_from_entry(
    entry: Option<(soroban_sdk::Address, soroban_sdk::Address, i128, u32, u32, u64)>,
) -> (r: Result<Config, Error>)
    ensures
        r == (match entry {
            None => Err(Error::NotInitialized),
            Some(t) => Ok(config_of_entry(t)),
        }),
{
    match entry {
        None => Err(Error::NotInitialized),
        Some((admin, token, entry_fee, payout_multiplier_bps, max_rolls, round_seconds)) => Ok(
            Config { admin, token, entry_fee, payout_multiplier_bps, max_rolls, round_seconds },
        ),
    }
}

/// Reads a session out of what the persistent storage gave back.
pub fn session_from_entry(entry: Option<(u64, u32, u64, i128, u32)>) -> (r: Option<Session>)
    ensures
        r == (match entry {
            None => None,
            Some(t) => Some(session_of_entry(t)),
        }),
{
    match entry {
        None => None,
        Some((seed, max_rolls, deadline_ts, entry_fee, payout_multiplier_bps)) => Some(
            Session { seed, max_rolls, deadline_ts, entry_fee, payout_multiplier_bps },
        ),
    }
}

/// The stored entry of a configuration.
pub open spec fn entry_of_config(config: Config) -> (
    soroban_sdk::Address,
    soroban_sdk::Address,
    i128,
    u32,
    u32,
    u64,
) {
    (
        config.admin,
        config.token,
        config.entry_fee,
        config.payout_multiplier_bps,
        config.max_rolls,
        config.round_seconds,
    )
}

/// The stored entry of a session.
pub open spec fn entry_of_session(session: Session) -> (u64, u32, u64, i128, u32) {
    (
        session.seed,
        session.max_rolls,
        session.deadline_ts,
        session.entry_fee,
        session.payout_multiplier_bps,
    )
}

/// The configuration that instance storage holding `entries` gives back.
pub open spec fn stored_config(
    entries: Map<u32, (soroban_sdk::Address, soroban_sdk::Address, i128, u32, u32, u64)>,
) -> Result<Config, Error> {
    if entries.contains_key(CONFIG_KEY) {
        Ok(config_of_entry(entries[CONFIG_KEY]))
    } else {
        Err(Error::NotInitialized)
    }
}

/// The session of `player` that persistent storage holding `entries` gives
/// back.
pub open spec fn stored_session(
    entries: Map<soroban_sdk::Address, (u64, u32, u64, i128, u32)>,
    player: soroban_sdk::Address,
) -> Option<Session> {
    if entries.contains_key(player) {
        Some(session_of_entry(entries[player]))
    } else {
        None
    }
}

/// Whether the contract has been initialized: a configuration is stored.
pub fn config_exists(store: &InstanceStore) -> (r: bool)
    ensures
        r == instance_entries(*store).contains_key(CONFIG_KEY),
{
    store.has(CONFIG_KEY)
}

/// The stored configuration, or `NotInitialized` when there is none.
pub fn load_config(store: &InstanceStore) -> (r: Result<Config, Error>)
    ensures
        r == stored_config(instance_entries(*store)),
        r is Err <==> !instance_entries(*store).contains_key(CONFIG_KEY),
        r is Err ==> r == Err::<Config, Error>(Error::NotInitialized),
        r matches Ok(c) ==> ({
            let e = instance_entries(*store)[CONFIG_KEY];
            c.admin == e.0 && c.token == e.1 && c.entry_fee == e.2 && c.payout_multiplier_bps
                == e.3 && c.max_rolls == e.4 && c.round_seconds == e.5
        }),
{
    store.extend_ttl(LIFETIME_THRESHOLD, BUMP_AMOUNT);
    let entry = store.get(CONFIG_KEY);
    config_from_entry(entry)
}

/// Stores the configuration, replacing any earlier one.
pub fn save_config(store: &mut InstanceStore, config: &Config)
    ensures
        instance_entries(*final(store)) == instance_entries(*old(store)).insert(
            CONFIG_KEY,
            entry_of_config(*config),
        ),
        instance_entries(*final(store))[CONFIG_KEY] == (
            config.admin,
            config.token,
            config.entry_fee,
            config.payout_multiplier_bps,
            config.max_rolls,
            config.round_seconds,
        ),
{
    store.set_config(
        CONFIG_KEY,
        &config.admin,
        &config.token,
        config.entry_fee,
        config.payout_multiplier_bps,
        config.max_rolls,
        config.round_seconds,
    );
    store.extend_ttl(LIFETIME_THRESHOLD, BUMP_AMOUNT);
}

/// The player's stored session, if any.
pub fn load_session(store: &SessionStore, player: &soroban_sdk::Address) -> (r: Option<Session>)
    ensures
        r == stored_session(session_entries(*store), *player),
        r is None <==> !session_entries(*store).contains_key(*player),
        r matches Some(s) ==> ({
            let e = session_entries(*store)[*player];
            s.seed == e.0 && s.max_rolls == e.1 && s.deadline_ts == e.2 && s.entry_fee == e.3
                && s.payout_multiplier_bps == e.4
        }),
{
    let entry = store.get(player);
    if entry.is_some() {
        store.extend_ttl(player, LIFETIME_THRESHOLD, BUMP_AMOUNT);
    }
    session_from_entry(entry)
}

/// Stores the player's session, replacing any earlier one.
pub fn save_session(store: &mut SessionStore, player: &soroban_sdk::Address, session: &Session)
    ensures
        session_entries(*final(store)) == session_entries(*old(store)).insert(
            *player,
            entry_of_session(*session),
        ),
        session_entries(*final(store))[*player] == (
            session.seed,
            session.max_rolls,
            session.deadline_ts,
            session.entry_fee,
            session.payout_multiplier_bps,
        ),
{
    store.set(
        player,
        session.seed,
        session.max_rolls,
        session.deadline_ts,
        session.entry_fee,
        session.payout_multiplier_bps,
    );
    store.extend_ttl(player, LIFETIME_THRESHOLD, BUMP_AMOUNT);
}

/// Removes the player's session.
pub fn clear_session(store: &mut SessionStore, player: &soroban_sdk::Address)
    ensures
        session_entries(*final(store)) == session_entries(*old(store)).remove(*player),
{
    store.remove(player);
}

/// A saved configuration is loaded back as it was saved.
pub proof fn lemma_saved_config_loads_back(
    entries: Map<u32, (soroban_sdk::Address, soroban_sdk::Address, i128, u32, u32, u64)>,
    config: Config,
)
    ensures
        stored_config(entries.insert(CONFIG_KEY, entry_of_config(config))) == Ok::<Config, Error>(
            config,
        ),
{
}

/// A saved session is loaded back as it was saved, and saving one player's
/// session leaves every other player's as it was.
pub proof fn lemma_saved_session_loads_back(
    entries: Map<soroban_sdk::Address, (u64, u32, u64, i128, u32)>,
    player: soroban_sdk::Address,
    other: soroban_sdk::Address,
    session: Session,
)
    ensures
        stored_session(entries.insert(player, entry_of_session(session)), player) == Some(session),
        other != player ==> stored_session(entries.insert(player, entry_of_session(session)), other)
            == stored_session(entries, other),
{
}

/// A cleared session is gone, and clearing one player's session leaves
/// every other player's as it was.
pub proof fn lemma_cleared_session_is_gone(
    entries: Map<soroban_sdk::Address, (u64, u32, u64, i128, u32)>,
    player: soroban_sdk::Address,
    other: soroban_sdk::Address,
)
    ensures
        stored_session(entries.remove(player), player) == None::<Session>,
        other != player ==> stored_session(entries.remove(player), other) == stored_session(
            entries,
            other,
        ),
{
}

} // verus!
