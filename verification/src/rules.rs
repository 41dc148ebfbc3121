//! The game's rules: replaying a claimed hold-mask sequence against the
//! committed seed, the checks a claim must pass, the payout, and the
//! guard on starting a new game.

use vstd::prelude::*;

use crate::dice::{
    die_value_spec,
    all_equal, all_equal_spec, compute_dice, u32_item_at, faces_in_range, lemma_hold_all_keeps_dice,
    lemma_reroll_in_range, lemma_roll_in_range, reroll_spec, reroll_unheld_deterministic, roll_spec,
    DICE_PER_ROLL, HOLD_ALL,
};
use crate::host::{holds_only_u32s, u32_items, u32_vec_len};
use crate::types::{Config, Error, Session};

verus! {

/// Hold masks address the ten dice only: a mask must be below `1 << 10`.
pub const HOLD_MASK_LIMIT: u32 = 1024;

/// The payout is `entry_fee * payout_multiplier_bps / 100`.
pub const MULTIPLIER_DIVISOR: i128 = 100;

/// The initial deal: roll 0, nothing held.
pub open spec fn initial_dice(seed: u64) -> Seq<u32> {
    roll_spec(seed, 0, DICE_PER_ROLL as nat)
}

/// Replays `masks[k..]`, starting from `dice`, the dice after the first `k`
/// masks. Mask `k` makes roll `k + 1`. A mask that addresses more than the
/// ten dice is refused, and so is any roll that wins before the last one.
pub open spec fn replay_from(seed: u64, masks: Seq<u32>, k: nat, dice: Seq<u32>) -> Result<
    Seq<u32>,
    Error,
>
    decreases masks.len() - k,
{
    if k >= masks.len() {
        Ok(dice)
    } else if masks[k as int] >= HOLD_MASK_LIMIT {
        Err(Error::InvalidHoldMask)
    } else {
        let next = reroll_spec(dice, masks[k as int], seed, (k + 1) as u32);
        if all_equal_spec(next) && k + 1 < masks.len() {
            Err(Error::InvalidRollSequence)
        } else {
            replay_from(seed, masks, k + 1, next)
        }
    }
}

/// The dice after the first `n` masks, each applied to the dice before it.
pub open spec fn dice_after(seed: u64, masks: Seq<u32>, n: nat) -> Seq<u32>
    decreases n,
{
    if n == 0 {
        initial_dice(seed)
    } else {
        reroll_spec(dice_after(seed, masks, (n - 1) as nat), masks[n - 1], seed, n as u32)
    }
}

/// Whether the whole sequence replays to a win: `Ok` when the dice are all
/// equal exactly once the last mask is applied, or the error the replay
/// stops on.
pub open spec fn replay_outcome(seed: u64, masks: Seq<u32>) -> Result<(), Error> {
    match replay_from(seed, masks, 0, initial_dice(seed)) {
        Err(e) => Err(e),
        Ok(dice) => if all_equal_spec(dice) {
            Ok(())
        } else {
            Err(Error::NotWon)
        },
    }
}

/// `entry_fee * payout_multiplier_bps / 100`, the division rounding toward
/// zero, or `Overflow` when the product does not fit in an `i128`.
pub open spec fn payout_spec(entry_fee: i128, payout_multiplier_bps: u32) -> Result<i128, Error> {
    let p = entry_fee * payout_multiplier_bps;
    if p < i128::MIN || p > i128::MAX {
        Err(Error::Overflow)
    } else if p >= 0 {
        Ok((p / 100) as i128)
    } else {
        Ok((-((-p) / 100)) as i128)
    }
}

/// The deal shows each of the ten dice's roll-0 face for the seed; after
/// mask `n - 1`, roll `n` keeps each die that the mask holds and shows the
/// roll-`n` face of every other die.
pub proof fn lemma_dice_after_faces(seed: u64, masks: Seq<u32>, n: nat, i: int)
    requires
        0 <= i < 10,
        n <= masks.len(),
        masks.len() < u32::MAX,
    ensures
        dice_after(seed, masks, 0).len() == 10,
        dice_after(seed, masks, 0)[i] == die_value_spec(seed, 0, i as u32),
        n >= 1 ==> dice_after(seed, masks, n)[i] == (if masks[n - 1] & (1u32 << (i as u32)) != 0 {
            dice_after(seed, masks, (n - 1) as nat)[i]
        } else {
            die_value_spec(seed, n as u32, i as u32)
        }),
{
    lemma_dice_after_in_range(seed, masks, n);
    if n >= 1 {
        lemma_dice_after_in_range(seed, masks, (n - 1) as nat);
    }
}

/// The payout is the product of the entry fee and the multiplier divided by
/// 100, rounding toward zero, and is refused as `Overflow` exactly when the
/// product does not fit in an `i128`.
pub proof fn lemma_payout_bounds(entry_fee: i128, payout_multiplier_bps: u32)
    ensures
        payout_spec(entry_fee, payout_multiplier_bps) is Err <==> (entry_fee * payout_multiplier_bps
            < i128::MIN || entry_fee * payout_multiplier_bps > i128::MAX),
        payout_spec(entry_fee, payout_multiplier_bps) is Err ==> payout_spec(
            entry_fee,
            payout_multiplier_bps,
        ) == Err::<i128, Error>(Error::Overflow),
        payout_spec(entry_fee, payout_multiplier_bps) matches Ok(p) ==> (entry_fee
            * payout_multiplier_bps >= 0 ==> p * 100 <= entry_fee * payout_multiplier_bps < p * 100
            + 100),
        payout_spec(entry_fee, payout_multiplier_bps) matches Ok(p) ==> (entry_fee
            * payout_multiplier_bps < 0 ==> p * 100 - 100 < entry_fee * payout_multiplier_bps <= p
            * 100),
{
    let x = entry_fee * payout_multiplier_bps;
    if i128::MIN <= x <= i128::MAX {
        if x >= 0 {
            assert((x / 100) * 100 <= x < (x / 100) * 100 + 100) by (nonlinear_arith)
                requires
                    x >= 0,
            ;
        } else {
            let y = -x;
            assert((y / 100) * 100 <= y < (y / 100) * 100 + 100) by (nonlinear_arith)
                requires
                    y > 0,
            ;
        }
    }
}

/// A new game's session commits to the seed it is given and snapshots the
/// configured terms; its deadline is the round length after `now`, and it
/// is refused as `Overflow` exactly when that does not fit in a `u64`.
pub proof fn lemma_session_terms(config: Config, seed: u64, now: u64)
    ensures
        session_spec(config, seed, now) is Err <==> now + config.round_seconds > u64::MAX,
        session_spec(config, seed, now) matches Ok(s) ==> s.seed == seed && s.max_rolls
            == config.max_rolls && s.deadline_ts == now + config.round_seconds && s.entry_fee
            == config.entry_fee && s.payout_multiplier_bps == config.payout_multiplier_bps,
{
}

/// A claim is refused as expired at or after the session's deadline, as a
/// bad sequence when it has no mask, and for too many rolls when it has
/// more masks than the session allows, in that order, whatever the masks.
pub proof fn lemma_claim_refusals(session: Session, now: u64, masks: Seq<u32>)
    ensures
        now >= session.deadline_ts ==> claim_rules(session, now, masks) == Err::<i128, Error>(
            Error::SessionExpired,
        ),
        now < session.deadline_ts && masks.len() == 0 ==> claim_rules(session, now, masks) == Err::<
            i128,
            Error,
        >(Error::InvalidRollSequence),
        now < session.deadline_ts && masks.len() > session.max_rolls ==> claim_rules(
            session,
            now,
            masks,
        ) == Err::<i128, Error>(Error::MaxRollsReached),
        now < session.deadline_ts && 1 <= masks.len() <= session.max_rolls && masks[0]
            >= HOLD_MASK_LIMIT ==> claim_rules(session, now, masks) == Err::<i128, Error>(
            Error::InvalidHoldMask,
        ),
{
}

/// What a claim on `session` at time `now` with `masks` is answered, up to
/// the reserve check: the payout, or the first check that fails.
/// `masks` are the submitted items as `u32_items` reads them: an item that
/// is not a `u32` reads as `u32::MAX` and is refused as a bad mask when the
/// replay reaches it.
pub open spec fn claim_rules(session: Session, now: u64, masks: Seq<u32>) -> Result<i128, Error> {
    if now >= session.deadline_ts {
        Err(Error::SessionExpired)
    } else if masks.len() == 0 {
        Err(Error::InvalidRollSequence)
    } else if masks.len() > session.max_rolls {
        Err(Error::MaxRollsReached)
    } else {
        match replay_outcome(session.seed, masks) {
            Err(e) => Err(e),
            Ok(()) => payout_spec(session.entry_fee, session.payout_multiplier_bps),
        }
    }
}

/// A new game may start unless the player's stored session is still
/// running (its deadline has not passed).
pub open spec fn start_rules(existing: Option<Session>, now: u64) -> Result<(), Error> {
    match existing {
        Some(s) => if now < s.deadline_ts {
            Err(Error::SessionActive)
        } else {
            Ok(())
        },
        None => Ok(()),
    }
}

/// The session a game started at `now` commits to: the seed, and a
/// snapshot of the configured terms.
pub open spec fn session_spec(config: Config, seed: u64, now: u64) -> Result<Session, Error> {
    if now + config.round_seconds > u64::MAX {
        Err(Error::Overflow)
    } else {
        Ok(
            Session {
                seed,
                max_rolls: config.max_rolls,
                deadline_ts: (now + config.round_seconds) as u64,
                entry_fee: config.entry_fee,
                payout_multiplier_bps: config.payout_multiplier_bps,
            },
        )
    }
}

/// Replays the hold masks in order against the committed seed, starting
/// from the initial deal: each mask must address the ten dice only, and the
/// dice must be all equal exactly once the sequence is fully consumed (an
/// early win with trailing entries is refused).
pub fn replay_sequence(env: &soroban_sdk::Env, seed: u64, hold_mask_sequence: &soroban_sdk::Vec<
    u32,
>) -> (r: Result<(), Error>)
    ensures
        r == replay_outcome(seed, u32_items(*hold_mask_sequence)),
{
    let ghost masks = u32_items(*hold_mask_sequence);
    let mut dice = compute_dice(env, seed, 0);
    let roll_count = u32_vec_len(hold_mask_sequence);
    let mut i: u32 = 0;
    while i < roll_count
        invariant
            roll_count == masks.len(),
            masks == u32_items(*hold_mask_sequence),
            i <= roll_count,
            u32_items(dice).len() == DICE_PER_ROLL,
            holds_only_u32s(dice),
            replay_from(seed, masks, 0, initial_dice(seed)) == replay_from(
                seed,
                masks,
                i as nat,
                u32_items(dice),
            ),
        decreases roll_count - i,
    {
        let hold_mask = u32_item_at(hold_mask_sequence, i);
        if hold_mask >= HOLD_MASK_LIMIT {
            return Err(Error::InvalidHoldMask);
        }
        let roll_index = i + 1;
        dice = reroll_unheld_deterministic(env, &dice, hold_mask, seed, roll_index);
        let is_last = roll_index == roll_count;
        if all_equal(&dice) && !is_last {
            return Err(Error::InvalidRollSequence);
        }
        i = roll_index;
    }
    if !all_equal(&dice) {
        return Err(Error::NotWon);
    }
    Ok(())
}

/// `entry_fee * payout_multiplier_bps / 100` with overflow refused.
pub fn compute_payout(entry_fee: i128, payout_multiplier_bps: u32) -> (r: Result<i128, Error>)
    ensures
        r == payout_spec(entry_fee, payout_multiplier_bps),
        r is Err <==> (entry_fee * payout_multiplier_bps < i128::MIN || entry_fee
            * payout_multiplier_bps > i128::MAX),
        r is Err ==> r == Err::<i128, Error>(Error::Overflow),
        r matches Ok(p) ==> (entry_fee * payout_multiplier_bps >= 0 ==> p * 100 <= entry_fee
            * payout_multiplier_bps < p * 100 + 100),
        r matches Ok(p) ==> (entry_fee * payout_multiplier_bps < 0 ==> p * 100 - 100 < entry_fee
            * payout_multiplier_bps <= p * 100),
{
    proof {
        lemma_payout_bounds(entry_fee, payout_multiplier_bps);
    }
    let bps = payout_multiplier_bps as i128;
    match entry_fee.checked_mul(bps) {
        None => Err(Error::Overflow),
        Some(v) => match v.checked_div(MULTIPLIER_DIVISOR) {
            None => Err(Error::Overflow),
            Some(p) => Ok(p),
        },
    }
}

/// Everything a claim checks before the reserve: the deadline, the length
/// of the sequence, the replay, and the payout.
pub fn check_claim(
    env: &soroban_sdk::Env,
    session: &Session,
    now: u64,
    hold_mask_sequence: &soroban_sdk::Vec<u32>,
) -> (r: Result<i128, Error>)
    ensures
        r == claim_rules(*session, now, u32_items(*hold_mask_sequence)),
{
    if now >= session.deadline_ts {
        return Err(Error::SessionExpired);
    }
    let len = u32_vec_len(hold_mask_sequence);
    if len == 0 {
        return Err(Error::InvalidRollSequence);
    }
    if len > session.max_rolls {
        return Err(Error::MaxRollsReached);
    }
    match replay_sequence(env, session.seed, hold_mask_sequence) {
        Err(e) => Err(e),
        Ok(()) => compute_payout(session.entry_fee, session.payout_multiplier_bps),
    }
}

/// Setup is refused once a configuration is stored.
pub fn check_initialize(config_stored: bool) -> (r: Result<(), Error>)
    ensures
        r == (if config_stored {
            Err(Error::AlreadyInitialized)
        } else {
            Ok::<(), Error>(())
        }),
{
    if config_stored {
        Err(Error::AlreadyInitialized)
    } else {
        Ok(())
    }
}

/// The configuration after the admin retunes the terms: the admin and the
/// token stay, the terms are replaced.
pub fn reconfigure(
    config: Config,
    entry_fee: i128,
    payout_multiplier_bps: u32,
    max_rolls: u32,
    round_seconds: u64,
) -> (r: Config)
    ensures
        r == (Config {
            admin: config.admin,
            token: config.token,
            entry_fee,
            payout_multiplier_bps,
            max_rolls,
            round_seconds,
        }),
{
    Config {
        admin: config.admin,
        token: config.token,
        entry_fee,
        payout_multiplier_bps,
        max_rolls,
        round_seconds,
    }
}

/// The contract pays out only from what it holds.
pub fn check_reserve(payout: i128, reserve: i128) -> (r: Result<(), Error>)
    ensures
        r == (if reserve < payout {
            Err(Error::InsufficientReserve)
        } else {
            Ok::<(), Error>(())
        }),
{
    if reserve < payout {
        Err(Error::InsufficientReserve)
    } else {
        Ok(())
    }
}

/// Refuses a new game while the player's stored session is still running.
pub fn check_start(existing: &Option<Session>, now: u64) -> (r: Result<(), Error>)
    ensures
        r == start_rules(*existing, now),
        r is Err <==> (existing is Some && now < existing->Some_0.deadline_ts),
        r is Err ==> r == Err::<(), Error>(Error::SessionActive),
{
    match existing {
        Some(s) => if now < s.deadline_ts {
            Err(Error::SessionActive)
        } else {
            Ok(())
        },
        None => Ok(()),
    }
}

/// The session for a game started at `now` with the given seed.
pub fn new_session(config: &Config, seed: u64, now: u64) -> (r: Result<Session, Error>)
    ensures
        r == session_spec(*config, seed, now),
        r is Err <==> now + config.round_seconds > u64::MAX,
        r is Err ==> r == Err::<Session, Error>(Error::Overflow),
        r matches Ok(s) ==> s.seed == seed && s.max_rolls == config.max_rolls && s.deadline_ts
            == now + config.round_seconds && s.entry_fee == config.entry_fee
            && s.payout_multiplier_bps == config.payout_multiplier_bps,
{
    match now.checked_add(config.round_seconds) {
        None => Err(Error::Overflow),
        Some(deadline_ts) => Ok(
            Session {
                seed,
                max_rolls: config.max_rolls,
                deadline_ts,
                entry_fee: config.entry_fee,
                payout_multiplier_bps: config.payout_multiplier_bps,
            },
        ),
    }
}

/// The conditions under which a replay from mask `k` runs to the end.
pub open spec fn replay_runs_from(seed: u64, masks: Seq<u32>, k: nat) -> bool {
    &&& forall|j: int| k <= j < masks.len() ==> #[trigger] masks[j] < HOLD_MASK_LIMIT
    &&& forall|n: int|
        k < n < masks.len() ==> !all_equal_spec(#[trigger] dice_after(seed, masks, n as nat))
}

/// Replaying from mask `k`, with the dice that the first `k` masks give,
/// runs to the end exactly when every remaining mask addresses the ten dice
/// only and no roll before the last wins; it then ends on the dice of the
/// whole sequence. Otherwise it stops on a bad mask or an early win.
pub proof fn lemma_replay_from(seed: u64, masks: Seq<u32>, k: nat)
    requires
        k <= masks.len(),
    ensures
        replay_from(seed, masks, k, dice_after(seed, masks, k)) is Ok <==> replay_runs_from(
            seed,
            masks,
            k,
        ),
        replay_runs_from(seed, masks, k) ==> replay_from(seed, masks, k, dice_after(seed, masks, k))
            == Ok::<Seq<u32>, Error>(dice_after(seed, masks, masks.len())),
        replay_from(seed, masks, k, dice_after(seed, masks, k)) is Err ==> (replay_from(
            seed,
            masks,
            k,
            dice_after(seed, masks, k),
        ) == Err::<Seq<u32>, Error>(Error::InvalidHoldMask) || replay_from(
            seed,
            masks,
            k,
            dice_after(seed, masks, k),
        ) == Err::<Seq<u32>, Error>(Error::InvalidRollSequence)),
    decreases masks.len() - k,
{
    if k < masks.len() {
        lemma_replay_from(seed, masks, k + 1);
        let next = dice_after(seed, masks, k + 1);
        assert(next == reroll_spec(dice_after(seed, masks, k), masks[k as int], seed, (k + 1) as u32));
        if replay_runs_from(seed, masks, k) {
            assert(replay_runs_from(seed, masks, k + 1));
            assert(masks[k as int] < HOLD_MASK_LIMIT);
            if k + 1 < masks.len() {
                assert(!all_equal_spec(dice_after(seed, masks, (k + 1) as int as nat)));
            }
        } else {
            if masks[k as int] < HOLD_MASK_LIMIT && !(all_equal_spec(next) && k + 1 < masks.len()) {
                assert(!replay_runs_from(seed, masks, k + 1)) by {
                    if replay_runs_from(seed, masks, k + 1) {
                        assert forall|n: int|
                            k < n < masks.len() implies !all_equal_spec(
                            #[trigger] dice_after(seed, masks, n as nat),
                        ) by {
                            if n == k + 1 {
                                assert(dice_after(seed, masks, n as nat) == next);
                            }
                        }
                    }
                }
            }
        }
    }
}

/// Which sequences replay to a win: exactly those in which every mask
/// addresses the ten dice only, no roll before the last wins, and the dice
/// after the whole sequence are all equal.
pub proof fn lemma_replay_outcome(seed: u64, masks: Seq<u32>)
    ensures
        replay_outcome(seed, masks) is Ok <==> (replay_runs_from(seed, masks, 0) && all_equal_spec(
            dice_after(seed, masks, masks.len()),
        )),
{
    lemma_replay_from(seed, masks, 0);
}

/// A claim is paid exactly when it comes before the deadline with between
/// one and `max_rolls` masks, every mask addresses the ten dice only, the
/// dice are all equal after the last roll and after no earlier one, and the
/// payout fits in an `i128`; it is then paid
/// `entry_fee * payout_multiplier_bps / 100`.
pub proof fn lemma_claim_accepts_exactly_winning_sequences(
    session: Session,
    now: u64,
    masks: Seq<u32>,
)
    ensures
        claim_rules(session, now, masks) is Ok <==> {
            &&& now < session.deadline_ts
            &&& 1 <= masks.len() <= session.max_rolls
            &&& forall|k: int| 0 <= k < masks.len() ==> #[trigger] masks[k] < HOLD_MASK_LIMIT
            &&& forall|n: int|
                1 <= n < masks.len() ==> !all_equal_spec(
                    #[trigger] dice_after(session.seed, masks, n as nat),
                )
            &&& all_equal_spec(dice_after(session.seed, masks, masks.len()))
            &&& payout_spec(session.entry_fee, session.payout_multiplier_bps) is Ok
        },
        claim_rules(session, now, masks) is Ok ==> claim_rules(session, now, masks) == payout_spec(
            session.entry_fee,
            session.payout_multiplier_bps,
        ),
{
    lemma_replay_outcome(session.seed, masks);
}

/// Appending a mask to a sequence whose last roll wins gives the same
/// replay up to that roll, which now counts as an early win.
proof fn lemma_replay_from_extended(seed: u64, masks: Seq<u32>, m: u32, k: nat, dice: Seq<u32>)
    requires
        k < masks.len(),
        replay_from(seed, masks, k, dice) is Ok,
        all_equal_spec(replay_from(seed, masks, k, dice)->Ok_0),
    ensures
        replay_from(seed, masks.push(m), k, dice) == Err::<Seq<u32>, Error>(
            Error::InvalidRollSequence,
        ),
    decreases masks.len() - k,
{
    let ext = masks.push(m);
    assert(ext[k as int] == masks[k as int]);
    let next = reroll_spec(dice, masks[k as int], seed, (k + 1) as u32);
    if k + 1 < masks.len() {
        lemma_replay_from_extended(seed, masks, m, k + 1, next);
    } else {
        assert(replay_from(seed, masks, k + 1, next) == Ok::<Seq<u32>, Error>(next));
    }
}

/// Entries after the winning roll are refused: once a sequence of at least
/// one mask wins, the same sequence with any mask appended does not.
pub proof fn lemma_trailing_entry_refused(seed: u64, masks: Seq<u32>, m: u32)
    requires
        masks.len() >= 1,
        replay_outcome(seed, masks) == Ok::<(), Error>(()),
    ensures
        replay_outcome(seed, masks.push(m)) == Err::<(), Error>(Error::InvalidRollSequence),
{
    lemma_replay_from_extended(seed, masks, m, 0, initial_dice(seed));
}

/// A claim with an entry appended after its winning roll is refused: for
/// too many rolls if it no longer fits `max_rolls`, else as a bad sequence.
pub proof fn lemma_claim_refuses_trailing_entries(
    session: Session,
    now: u64,
    masks: Seq<u32>,
    m: u32,
)
    requires
        claim_rules(session, now, masks) is Ok,
    ensures
        claim_rules(session, now, masks.push(m)) == (if masks.len() + 1 > session.max_rolls {
            Err::<i128, Error>(Error::MaxRollsReached)
        } else {
            Err::<i128, Error>(Error::InvalidRollSequence)
        }),
{
    lemma_trailing_entry_refused(session.seed, masks, m);
}

/// A natural win on the deal is claimed with the one mask that holds
/// every die.
pub proof fn lemma_natural_win_claimable(seed: u64)
    requires
        all_equal_spec(initial_dice(seed)),
    ensures
        replay_outcome(seed, seq![HOLD_ALL]) == Ok::<(), Error>(()),
{
    lemma_hold_all_keeps_dice(initial_dice(seed), seed, 1);
    let masks = seq![HOLD_ALL];
    assert(masks[0] < HOLD_MASK_LIMIT);
    assert(replay_from(seed, masks, 1, initial_dice(seed)) == Ok::<Seq<u32>, Error>(
        initial_dice(seed),
    ));
}

/// Appending a mask leaves the dice of every prefix as they were.
pub proof fn lemma_dice_after_prefix(seed: u64, masks: Seq<u32>, m: u32, n: nat)
    requires
        n <= masks.len(),
    ensures
        dice_after(seed, masks.push(m), n) == dice_after(seed, masks, n),
    decreases n,
{
    if n > 0 {
        lemma_dice_after_prefix(seed, masks, m, (n - 1) as nat);
        assert(masks.push(m)[n - 1] == masks[n - 1]);
    }
}

/// The roll that an appended mask makes rerolls the dice of the sequence
/// before it.
pub proof fn lemma_dice_after_push(seed: u64, masks: Seq<u32>, m: u32)
    requires
        masks.len() < u32::MAX,
    ensures
        dice_after(seed, masks.push(m), masks.len() + 1) == reroll_spec(
            dice_after(seed, masks, masks.len()),
            m,
            seed,
            (masks.len() + 1) as u32,
        ),
{
    lemma_dice_after_prefix(seed, masks, m, masks.len());
    assert(masks.push(m)[masks.len() as int] == m);
}

/// Every die of every replayed roll shows a face from 1 to 6, and there are
/// always ten dice.
pub proof fn lemma_dice_after_in_range(seed: u64, masks: Seq<u32>, n: nat)
    ensures
        faces_in_range(dice_after(seed, masks, n)),
        dice_after(seed, masks, n).len() == DICE_PER_ROLL,
    decreases n,
{
    if n == 0 {
        lemma_roll_in_range(seed, 0, DICE_PER_ROLL as nat);
    } else {
        lemma_dice_after_in_range(seed, masks, (n - 1) as nat);
        lemma_reroll_in_range(dice_after(seed, masks, (n - 1) as nat), masks[n - 1], seed, n as u32);
    }
}

/// Holding every die on the first roll keeps the deal.
pub proof fn lemma_hold_all_keeps_dice_after_deal(seed: u64)
    ensures
        dice_after(seed, seq![HOLD_ALL], 1) == initial_dice(seed),
{
    lemma_hold_all_keeps_dice(initial_dice(seed), seed, 1);
    assert(dice_after(seed, seq![HOLD_ALL], 0) == initial_dice(seed));
}

} // verus!
