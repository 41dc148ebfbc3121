//! The boundary with the Soroban host (`soroban_sdk`): the host types that
//! the game's code carries, the contract's storage, and one trusted wrapper
//! per host function that the game calls. Each wrapper's doc comment names
//! the function it calls and says what its contract claims of it; nothing
//! here is proved. A store is opened once per contract call, by the code
//! that runs the call, and handed to the game's entry points.

use vstd::prelude::*;

verus! {

/// `soroban_sdk::Env`: the handle to the host that runs the contract.
#[verifier::external_type_specification]
#[verifier::external_body]
pub struct ExEnv(soroban_sdk::Env);

/// `soroban_sdk::Address`: an account or contract address.
#[verifier::external_type_specification]
#[verifier::external_body]
pub struct ExAddress(soroban_sdk::Address);

/// `soroban_sdk::Vec<T>`: a vector object that lives in the host.
#[verifier::external_type_specification]
#[verifier::external_body]
#[verifier::reject_recursive_types(T)]
pub struct ExHostVec<T>(soroban_sdk::Vec<T>);

/// `soroban_sdk::ConversionError`: a host value is not of the type asked
/// for.
#[verifier::external_type_specification]
#[verifier::external_body]
pub struct ExConversionError(soroban_sdk::ConversionError);

/// The items, front to back, of a host vector handed out as a vector of
/// `u32`, each read as a `u32`: `None` where the item is some other value
/// (the SDK turns a contract argument into a `Vec<u32>` without checking
/// its items). Host vector objects are immutable (pushing makes a new
/// object), so a handle always stands for the same items.
pub uninterp spec fn host_u32_items(v: soroban_sdk::Vec<u32>) -> Seq<Option<u32>>;

/// The items of a host vector of `u32`, an item that is not a `u32` read as
/// `u32::MAX`.
pub open spec fn u32_items(v: soroban_sdk::Vec<u32>) -> Seq<u32> {
    Seq::new(
        host_u32_items(v).len(),
        |i: int|
            match host_u32_items(v)[i] {
                Some(x) => x,
                None => u32::MAX,
            },
    )
}

/// Every item of the host vector is a `u32`.
pub open spec fn holds_only_u32s(v: soroban_sdk::Vec<u32>) -> bool {
    forall|i: int| 0 <= i < host_u32_items(v).len() ==> (#[trigger] host_u32_items(v)[i]) is Some
}

/// Calls `soroban_sdk::Vec::<u32>::new`; claims that the new vector is empty.
#[verifier::external_body]
pub(crate) fn u32_vec_new(env: &soroban_sdk::Env) -> (v: soroban_sdk::Vec<u32>)
    ensures
        host_u32_items(v) == Seq::<Option<u32>>::empty(),
{
    soroban_sdk::Vec::new(env)
}

/// Calls `soroban_sdk::Vec::<u32>::push_back`; claims that the item is
/// appended after the others. A host vector's length is a `u32`, so the
/// vector must not already be full.
#[verifier::external_body]
pub(crate) fn u32_vec_push_back(v: &mut soroban_sdk::Vec<u32>, x: u32)
    requires
        host_u32_items(*old(v)).len() < u32::MAX,
    ensures
        host_u32_items(*final(v)) == host_u32_items(*old(v)).push(Some(x)),
{
    v.push_back(x)
}

/// Calls `soroban_sdk::Vec::<u32>::try_get`; claims that it gives the item
/// at position `i` when that item is a `u32`, a conversion error when it is
/// not, and `None` past the end.
#[verifier::external_body]
pub(crate) fn u32_vec_try_get(v: &soroban_sdk::Vec<u32>, i: u32) -> (r: Result<
    Option<u32>,
    soroban_sdk::ConversionError,
>)
    ensures
        r is Err <==> (i < host_u32_items(*v).len() && host_u32_items(*v)[i as int] is None),
        r matches Ok(item) ==> item == (if i < host_u32_items(*v).len() {
            host_u32_items(*v)[i as int]
        } else {
            None::<u32>
        }),
{
    v.try_get(i)
}

/// Calls `soroban_sdk::Vec::<u32>::len`; claims that it gives the number of
/// items.
#[verifier::external_body]
pub(crate) fn u32_vec_len(v: &soroban_sdk::Vec<u32>) -> (r: u32)
    ensures
        r == host_u32_items(*v).len(),
{
    v.len()
}

/// The running contract's instance storage, which holds the game's
/// configuration. The host handle is private: what the storage holds is
/// known only through `instance_entries`, which its methods keep up to date.
#[verifier::external_body]
pub struct InstanceStore {
    env: soroban_sdk::Env,
}

/// The configuration entries of the contract's instance storage, by key,
/// each stored as the tuple `(admin, token, entry_fee,
/// payout_multiplier_bps, max_rolls, round_seconds)`. Only this contract
/// writes its storage, and it writes only such tuples there. The map is the
/// storage as seen through one store, opened once per contract call and
/// written only through it; across calls the ledger is outside state.
pub uninterp spec fn instance_entries(store: InstanceStore) -> Map<
    u32,
    (soroban_sdk::Address, soroban_sdk::Address, i128, u32, u32, u64),
>;

impl InstanceStore {
    /// Opens the running contract's instance storage through a clone of the
    /// host handle. What it holds is ledger state, so nothing is claimed of
    /// it.
    #[verifier::external_body]
    pub fn open(env: &soroban_sdk::Env) -> InstanceStore {
        InstanceStore { env: env.clone() }
    }

    /// Calls `Instance::has`; claims that it tells whether an entry is
    /// stored under `key`.
    #[verifier::external_body]
    pub(crate) fn has(&self, key: u32) -> (r: bool)
        ensures
            r == instance_entries(*self).contains_key(key),
    {
        self.env.storage().instance().has(&key)
    }

    /// Calls `Instance::get`; claims that it gives the entry stored under
    /// `key`, or `None`.
    #[verifier::external_body]
    pub(crate) fn get(&self, key: u32) -> (r: Option<
        (soroban_sdk::Address, soroban_sdk::Address, i128, u32, u32, u64),
    >)
        ensures
            r == (if instance_entries(*self).contains_key(key) {
                Some(instance_entries(*self)[key])
            } else {
                None
            }),
    {
        self.env.storage().instance().get(&key)
    }

    /// Calls `Instance::set` with the tuple `(admin, token, entry_fee,
    /// payout_multiplier_bps, max_rolls, round_seconds)`; claims that this
    /// entry now stands under `key` and nothing else changed.
    #[verifier::external_body]
    pub(crate) fn set_config(
        &mut self,
        key: u32,
        admin: &soroban_sdk::Address,
        token: &soroban_sdk::Address,
        entry_fee: i128,
        payout_multiplier_bps: u32,
        max_rolls: u32,
        round_seconds: u64,
    )
        ensures
            instance_entries(*final(self)) == instance_entries(*old(self)).insert(
                key,
                (*admin, *token, entry_fee, payout_multiplier_bps, max_rolls, round_seconds),
            ),
    {
        let entry = (admin.clone(), token.clone(), entry_fee, payout_multiplier_bps, max_rolls, round_seconds);
        self.env.storage().instance().set(&key, &entry)
    }

    /// Calls `Instance::extend_ttl`, which changes no entry. The host
    /// refuses a threshold above `extend_to`.
    #[verifier::external_body]
    pub(crate) fn extend_ttl(&self, threshold: u32, extend_to: u32)
        requires
            threshold <= extend_to,
    {
        self.env.storage().instance().extend_ttl(threshold, extend_to)
    }
}

/// The running contract's persistent storage, which holds each player's
/// session. The host handle is private: what the storage holds is known
/// only through `session_entries`, which its methods keep up to date.
#[verifier::external_body]
pub struct SessionStore {
    env: soroban_sdk::Env,
}

/// The session entries of the contract's persistent storage, each under
/// its player's address, stored as the tuple `(seed, max_rolls,
/// deadline_ts, entry_fee, payout_multiplier_bps)`. Only this contract
/// writes its storage, and it writes only such tuples under addresses
/// there. The map is the storage as seen through one store, opened once per
/// contract call and written only through it, keyed by the address values
/// that call hands in; across calls the ledger is outside state.
pub uninterp spec fn session_entries(store: SessionStore) -> Map<
    soroban_sdk::Address,
    (u64, u32, u64, i128, u32),
>;

impl SessionStore {
    /// Opens the running contract's persistent storage through a clone of
    /// the host handle. What it holds is ledger state, so nothing is
    /// claimed of it.
    #[verifier::external_body]
    pub fn open(env: &soroban_sdk::Env) -> SessionStore {
        SessionStore { env: env.clone() }
    }

    /// Calls `Persistent::get`; claims that it gives the entry stored under
    /// the player's address, or `None`.
    #[verifier::external_body]
    pub(crate) fn get(&self, player: &soroban_sdk::Address) -> (r: Option<
        (u64, u32, u64, i128, u32),
    >)
        ensures
            r == (if session_entries(*self).contains_key(*player) {
                Some(session_entries(*self)[*player])
            } else {
                None
            }),
    {
        self.env.storage().persistent().get(player)
    }

    /// Calls `Persistent::set` with the tuple `(seed, max_rolls,
    /// deadline_ts, entry_fee, payout_multiplier_bps)`; claims that this
    /// entry now stands under the player's address and nothing else
    /// changed.
    #[verifier::external_body]
    pub(crate) fn set(
        &mut self,
        player: &soroban_sdk::Address,
        seed: u64,
        max_rolls: u32,
        deadline_ts: u64,
        entry_fee: i128,
        payout_multiplier_bps: u32,
    )
        ensures
            session_entries(*final(self)) == session_entries(*old(self)).insert(
                *player,
                (seed, max_rolls, deadline_ts, entry_fee, payout_multiplier_bps),
            ),
    {
        let entry = (seed, max_rolls, deadline_ts, entry_fee, payout_multiplier_bps);
        self.env.storage().persistent().set(player, &entry)
    }

    /// Calls `Persistent::extend_ttl` on the player's entry, which changes
    /// no entry. The host refuses a threshold above `extend_to`, and an
    /// entry that does not exist.
    #[verifier::external_body]
    pub(crate) fn extend_ttl(&self, player: &soroban_sdk::Address, threshold: u32, extend_to: u32)
        requires
            threshold <= extend_to,
            session_entries(*self).contains_key(*player),
    {
        self.env.storage().persistent().extend_ttl(player, threshold, extend_to)
    }

    /// Calls `Persistent::remove` on the player's entry; claims that the
    /// entry is gone and nothing else changed.
    #[verifier::external_body]
    pub(crate) fn remove(&mut self, player: &soroban_sdk::Address)
        ensures
            session_entries(*final(self)) == session_entries(*old(self)).remove(*player),
    {
        self.env.storage().persistent().remove(player)
    }
}

} // verus!
