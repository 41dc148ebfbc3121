use dice_game::dice::{
    all_equal, compute_dice, die_value, mix64, mix_key, reroll_unheld_deterministic, HOLD_ALL,
};
use dice_game::rules::{
    check_claim, check_reserve, check_start, compute_payout, new_session, replay_sequence,
};
use dice_game::rules::{check_initialize, reconfigure};
use dice_game::storage::{config_from_entry, session_from_entry};
use dice_game::strategy::{hold_mask_for_face, most_common_face, play_greedy};
use dice_game::host::{InstanceStore, SessionStore};
use dice_game::types::Config;
use dice_game::{DiceGame, Error, Session};
use soroban_sdk::testutils::{Address as _, ContractFunctionSet, EnvTestConfig};
use soroban_sdk::{Address, Env, IntoVal, Symbol, TryFromVal, Val, Vec};

fn quiet_env() -> Env {
    Env::new_with_config(EnvTestConfig {
        capture_snapshot_at_drop: false,
    })
}

fn host_vec(env: &Env, items: &[u32]) -> Vec<u32> {
    let mut v = Vec::new(env);
    for x in items {
        v.push_back(*x);
    }
    v
}

fn items(v: &Vec<u32>) -> std::vec::Vec<u32> {
    (0..v.len()).map(|i| v.get(i).unwrap()).collect()
}

/// The winning greedy sequence for seed 3 (nine rolls, all threes).
const SEED_3_WIN: [u32; 9] = [353, 873, 1005, 1005, 1005, 1005, 1005, 1005, 1021];

/// The greedy sequence for seed 4, which does not win within fifteen rolls.
const SEED_4_LOSS: [u32; 15] = [
    548, 564, 820, 822, 822, 823, 823, 823, 823, 823, 823, 823, 823, 823, 823,
];

fn session(seed: u64) -> Session {
    Session {
        seed,
        max_rolls: 15,
        deadline_ts: 1_000,
        entry_fee: 10_000_000,
        payout_multiplier_bps: 200,
    }
}

#[test]
fn mix64_known_values() {
    assert_eq!(mix64(0), 0);
    assert_eq!(mix64(1), 0x5692161d100b05e5);
}

#[test]
fn mix_key_known_values() {
    assert_eq!(mix_key(42, 1, 0), 0x9e3779b97f4a7c3f);
    assert_eq!(mix_key(42, 0, 1), 0xc2b2ae3d27d4eb65);
    assert_eq!(mix_key(7, 0, 0), 7);
}

#[test]
fn mix_key_separates_seeds() {
    for roll_index in 0..5u32 {
        for die_index in 0..10u32 {
            assert_ne!(mix_key(1, roll_index, die_index), mix_key(2, roll_index, die_index));
        }
    }
}

#[test]
fn die_value_known_faces() {
    let faces: std::vec::Vec<u32> = (0..10).map(|d| die_value(0, 0, d)).collect();
    assert_eq!(faces, [1, 3, 4, 5, 4, 1, 6, 5, 3, 6]);
    let faces: std::vec::Vec<u32> = (0..10).map(|d| die_value(42, 1, d)).collect();
    assert_eq!(faces, [2, 6, 4, 1, 5, 4, 1, 4, 5, 4]);
}

#[test]
fn compute_dice_is_the_deal() {
    let env = quiet_env();
    let dice = compute_dice(&env, 0, 0);
    assert_eq!(items(&dice), [1, 3, 4, 5, 4, 1, 6, 5, 3, 6]);
    let dice = compute_dice(&env, 0, 1);
    assert_eq!(items(&dice), [2, 3, 4, 5, 1, 4, 1, 5, 5, 5]);
}

#[test]
fn reroll_keeps_held_dice_only() {
    let env = quiet_env();
    let deal = compute_dice(&env, 0, 0);
    let next = reroll_unheld_deterministic(&env, &deal, 0b1, 0, 1);
    assert_eq!(items(&next), [1, 3, 4, 5, 1, 4, 1, 5, 5, 5]);
    let none_held = reroll_unheld_deterministic(&env, &deal, 0, 0, 1);
    assert_eq!(items(&none_held), items(&compute_dice(&env, 0, 1)));
}

#[test]
fn hold_all_keeps_every_die() {
    let env = quiet_env();
    let deal = compute_dice(&env, 42, 0);
    let next = reroll_unheld_deterministic(&env, &deal, HOLD_ALL, 42, 1);
    assert_eq!(items(&next), items(&deal));
}

#[test]
fn all_equal_needs_dice_and_one_face() {
    let env = quiet_env();
    assert!(all_equal(&host_vec(&env, &[4; 10])));
    assert!(all_equal(&host_vec(&env, &[2])));
    assert!(!all_equal(&host_vec(&env, &[])));
    assert!(!all_equal(&host_vec(&env, &[4, 4, 4, 4, 4, 4, 4, 4, 4, 5])));
}

#[test]
fn greedy_plays_seed_3_to_a_win() {
    let env = quiet_env();
    let (dice, sequence) = play_greedy(&env, 3, 15);
    assert_eq!(items(&sequence), SEED_3_WIN);
    assert_eq!(items(&dice), [3; 10]);
    assert_eq!(replay_sequence(&env, 3, &sequence), Ok(()));
}

#[test]
fn greedy_on_seed_4_uses_every_roll_and_loses() {
    let env = quiet_env();
    let (dice, sequence) = play_greedy(&env, 4, 15);
    assert_eq!(items(&sequence), SEED_4_LOSS);
    assert!(!all_equal(&dice));
    assert_eq!(replay_sequence(&env, 4, &sequence), Err(Error::NotWon));
}

#[test]
fn greedy_with_no_rolls_plays_nothing() {
    let env = quiet_env();
    let (dice, sequence) = play_greedy(&env, 3, 0);
    assert_eq!(sequence.len(), 0);
    assert_eq!(items(&dice), items(&compute_dice(&env, 3, 0)));
}

#[test]
fn most_common_face_takes_lowest_on_tie() {
    let env = quiet_env();
    assert_eq!(most_common_face(&host_vec(&env, &[1, 3, 4, 5, 4, 1, 6, 5, 3, 6])), 1);
    assert_eq!(most_common_face(&host_vec(&env, &[2, 2, 6, 6, 6, 3, 1, 3, 1, 6])), 6);
}

#[test]
fn hold_mask_holds_dice_showing_the_face() {
    let env = quiet_env();
    let dice = host_vec(&env, &[1, 3, 4, 5, 4, 1, 6, 5, 3, 6]);
    assert_eq!(hold_mask_for_face(&dice, 1), 0b10_0001);
    assert_eq!(hold_mask_for_face(&dice, 6), 0b10_0100_0000 | (1 << 9));
    assert_eq!(hold_mask_for_face(&dice, 2), 0);
}

#[test]
fn claim_rules_pay_a_winning_sequence() {
    let env = quiet_env();
    let seq = host_vec(&env, &SEED_3_WIN);
    assert_eq!(check_claim(&env, &session(3), 999, &seq), Ok(20_000_000));
}

#[test]
fn claim_rules_refuse_after_deadline() {
    let env = quiet_env();
    let seq = host_vec(&env, &SEED_3_WIN);
    assert_eq!(check_claim(&env, &session(3), 1_000, &seq), Err(Error::SessionExpired));
}

#[test]
fn claim_rules_refuse_empty_and_too_long_sequences() {
    let env = quiet_env();
    let empty = host_vec(&env, &[]);
    assert_eq!(check_claim(&env, &session(3), 0, &empty), Err(Error::InvalidRollSequence));
    let long = host_vec(&env, &[0; 16]);
    assert_eq!(check_claim(&env, &session(3), 0, &long), Err(Error::MaxRollsReached));
    let mut short_session = session(3);
    short_session.max_rolls = 8;
    let seq = host_vec(&env, &SEED_3_WIN);
    assert_eq!(check_claim(&env, &short_session, 0, &seq), Err(Error::MaxRollsReached));
}

#[test]
fn claim_rules_refuse_a_bad_mask() {
    let env = quiet_env();
    let seq = host_vec(&env, &[353, 1 << 10]);
    assert_eq!(check_claim(&env, &session(3), 0, &seq), Err(Error::InvalidHoldMask));
}

#[test]
fn claim_rules_refuse_trailing_entries_after_a_win() {
    let env = quiet_env();
    let mut seq = host_vec(&env, &SEED_3_WIN);
    seq.push_back(HOLD_ALL);
    assert_eq!(check_claim(&env, &session(3), 0, &seq), Err(Error::InvalidRollSequence));
    // Even a bad trailing mask is refused as a bad sequence: the early win
    // is found first.
    let mut seq = host_vec(&env, &SEED_3_WIN);
    seq.push_back(1 << 12);
    assert_eq!(check_claim(&env, &session(3), 0, &seq), Err(Error::InvalidRollSequence));
}

#[test]
fn claim_rules_refuse_a_loss() {
    let env = quiet_env();
    let seq = host_vec(&env, &SEED_4_LOSS);
    assert_eq!(check_claim(&env, &session(4), 0, &seq), Err(Error::NotWon));
    let seq = host_vec(&env, &SEED_3_WIN[..8]);
    assert_eq!(check_claim(&env, &session(3), 0, &seq), Err(Error::NotWon));
}

#[test]
fn claim_rules_refuse_an_overflowing_payout() {
    let env = quiet_env();
    let mut rich = session(3);
    rich.entry_fee = i128::MAX;
    let seq = host_vec(&env, &SEED_3_WIN);
    assert_eq!(check_claim(&env, &rich, 0, &seq), Err(Error::Overflow));
}

#[test]
fn payout_formula() {
    assert_eq!(compute_payout(10_000_000, 200), Ok(20_000_000));
    assert_eq!(compute_payout(199, 1), Ok(1));
    assert_eq!(compute_payout(-150, 1), Ok(-1));
    assert_eq!(compute_payout(10_000_000, u32::MAX), Ok(429_496_729_500_000));
    assert_eq!(compute_payout(i128::MAX, 2), Err(Error::Overflow));
}

#[test]
fn reserve_must_cover_the_payout() {
    assert_eq!(check_reserve(5, 4), Err(Error::InsufficientReserve));
    assert_eq!(check_reserve(5, 5), Ok(()));
}

#[test]
fn start_waits_for_the_deadline() {
    assert_eq!(check_start(&None, 0), Ok(()));
    assert_eq!(check_start(&Some(session(3)), 999), Err(Error::SessionActive));
    assert_eq!(check_start(&Some(session(3)), 1_000), Ok(()));
}

#[test]
fn new_session_snapshots_the_terms() {
    let env = quiet_env();
    let config = Config {
        admin: Address::generate(&env),
        token: Address::generate(&env),
        entry_fee: 7,
        payout_multiplier_bps: 150,
        max_rolls: 12,
        round_seconds: 90,
    };
    assert_eq!(
        new_session(&config, 99, 1_000),
        Ok(Session {
            seed: 99,
            max_rolls: 12,
            deadline_ts: 1_090,
            entry_fee: 7,
            payout_multiplier_bps: 150,
        })
    );
    assert_eq!(new_session(&config, 99, u64::MAX - 89), Err(Error::Overflow));
}

struct GameFrame;

impl ContractFunctionSet for GameFrame {
    fn call(&self, _func: &str, _env: Env, _args: &[Val]) -> Option<Val> {
        None
    }
}

#[test]
fn contract_refuses_calls_before_initialize() {
    let env = quiet_env();
    let id = env.register(GameFrame, ());
    let player = Address::generate(&env);
    let contract = id.clone();
    env.as_contract(&id, || {
        let mut config_store = InstanceStore::open(&env);
        let mut sessions = SessionStore::open(&env);
        assert!(matches!(DiceGame::get_config(&config_store), Err(Error::NotInitialized)));
        assert!(matches!(
            DiceGame::start_game(&config_store, &mut sessions, player.clone(), contract.clone(), 0, 1),
            Err(Error::NotInitialized)
        ));
        assert_eq!(
            DiceGame::set_config(&mut config_store, 1, 1, 1, 1),
            Err(Error::NotInitialized)
        );
        assert!(matches!(
            DiceGame::withdraw(&config_store, contract.clone(), 1),
            Err(Error::NotInitialized)
        ));
        assert!(matches!(
            DiceGame::deposit(&config_store, player.clone(), contract.clone(), 1),
            Err(Error::NotInitialized)
        ));
        assert_eq!(DiceGame::get_session(&sessions, &player), None);
    });
}

#[test]
fn contract_initializes_once_and_claims_need_a_session() {
    let env = quiet_env();
    let id = env.register(GameFrame, ());
    let admin = Address::generate(&env);
    let token = Address::generate(&env);
    let player = Address::generate(&env);
    let contract = id.clone();
    env.as_contract(&id, || {
        let mut config_store = InstanceStore::open(&env);
        let mut sessions = SessionStore::open(&env);
        assert_eq!(
            DiceGame::initialize(&mut config_store, admin.clone(), token.clone(), 5, 200, 15, 90),
            Ok(())
        );
        assert_eq!(
            DiceGame::initialize(&mut config_store, token.clone(), admin.clone(), 6, 100, 3, 9),
            Err(Error::AlreadyInitialized)
        );
        let config = DiceGame::get_config(&config_store).unwrap();
        assert_eq!(config.admin, admin);
        assert_eq!(config.token, token);
        assert_eq!(config.entry_fee, 5);
        assert_eq!(config.payout_multiplier_bps, 200);
        assert_eq!(config.max_rolls, 15);
        assert_eq!(config.round_seconds, 90);
        let seq = host_vec(&env, &SEED_3_WIN);
        assert!(matches!(
            DiceGame::claim(&env, &config_store, &mut sessions, player.clone(), contract.clone(), &seq, 0, 0),
            Err(Error::NoActiveSession)
        ));
    });
}

#[test]
fn contract_start_and_claim_settle_with_the_right_transfers() {
    let env = quiet_env();
    let id = env.register(GameFrame, ());
    let admin = Address::generate(&env);
    let token = Address::generate(&env);
    let player = Address::generate(&env);
    let other = Address::generate(&env);
    let contract = id.clone();
    env.as_contract(&id, || {
        let mut config_store = InstanceStore::open(&env);
        let mut sessions = SessionStore::open(&env);
        DiceGame::initialize(&mut config_store, admin.clone(), token.clone(), 10_000_000, 200, 15, 90)
            .unwrap();

        // A game at time 100 with seed 3: the fee moves from the player to
        // the contract and the session is stored.
        let (session, fee) =
            DiceGame::start_game(&config_store, &mut sessions, player.clone(), contract.clone(), 100, 3)
                .unwrap();
        assert_eq!(
            session,
            Session {
                seed: 3,
                max_rolls: 15,
                deadline_ts: 190,
                entry_fee: 10_000_000,
                payout_multiplier_bps: 200,
            }
        );
        assert_eq!(fee.token, token);
        assert_eq!(fee.from, player);
        assert_eq!(fee.to, contract);
        assert_eq!(fee.amount, 10_000_000);
        assert_eq!(DiceGame::get_session(&sessions, &player), Some(session));
        assert_eq!(DiceGame::get_session(&sessions, &other), None);

        // A second start while the session runs is refused.
        assert!(matches!(
            DiceGame::start_game(&config_store, &mut sessions, player.clone(), contract.clone(), 189, 4),
            Err(Error::SessionActive)
        ));
        assert_eq!(DiceGame::get_session(&sessions, &player), Some(session));

        // Retuning keeps the stored session's terms.
        DiceGame::set_config(&mut config_store, 1, 1, 1, 1).unwrap();
        assert_eq!(DiceGame::get_session(&sessions, &player), Some(session));
        let retuned = DiceGame::get_config(&config_store).unwrap();
        assert_eq!(retuned.admin, admin);
        assert_eq!(retuned.token, token);
        assert_eq!(retuned.entry_fee, 1);

        // A refused claim keeps the session.
        let seq = host_vec(&env, &SEED_3_WIN);
        assert!(matches!(
            DiceGame::claim(&env, &config_store, &mut sessions, player.clone(), contract.clone(), &seq, 150, 0),
            Err(Error::InsufficientReserve)
        ));
        assert_eq!(DiceGame::get_session(&sessions, &player), Some(session));

        // A paid claim pays the session's terms and removes the session.
        let payout = DiceGame::claim(
            &env,
            &config_store,
            &mut sessions,
            player.clone(),
            contract.clone(),
            &seq,
            150,
            20_000_000,
        )
        .unwrap();
        assert_eq!(payout.token, token);
        assert_eq!(payout.from, contract);
        assert_eq!(payout.to, player);
        assert_eq!(payout.amount, 20_000_000);
        assert_eq!(DiceGame::get_session(&sessions, &player), None);

        // It pays only once.
        assert!(matches!(
            DiceGame::claim(&env, &config_store, &mut sessions, player.clone(), contract.clone(), &seq, 150, 20_000_000),
            Err(Error::NoActiveSession)
        ));

        // Deposits and withdrawals move the configured token.
        let deposit = DiceGame::deposit(&config_store, other.clone(), contract.clone(), 7).unwrap();
        assert_eq!((deposit.token, deposit.from, deposit.to, deposit.amount), (token.clone(), other.clone(), contract.clone(), 7));
        let withdrawal = DiceGame::withdraw(&config_store, contract.clone(), 8).unwrap();
        assert_eq!(
            (withdrawal.token, withdrawal.from, withdrawal.to, withdrawal.amount),
            (token.clone(), contract.clone(), admin.clone(), 8)
        );
    });
}

#[test]
fn stored_entries_read_back_field_by_field() {
    let env = quiet_env();
    let admin = Address::generate(&env);
    let token = Address::generate(&env);
    let config = config_from_entry(Some((admin.clone(), token.clone(), 5, 200, 15, 90))).unwrap();
    assert_eq!(config.admin, admin);
    assert_eq!(config.token, token);
    assert_eq!(config.entry_fee, 5);
    assert_eq!(config.payout_multiplier_bps, 200);
    assert_eq!(config.max_rolls, 15);
    assert_eq!(config.round_seconds, 90);
    assert!(matches!(config_from_entry(None), Err(Error::NotInitialized)));
    assert_eq!(
        session_from_entry(Some((9, 15, 1_000, 7, 150))),
        Some(Session {
            seed: 9,
            max_rolls: 15,
            deadline_ts: 1_000,
            entry_fee: 7,
            payout_multiplier_bps: 150,
        })
    );
    assert_eq!(session_from_entry(None), None);
}

#[test]
fn setup_happens_once_and_retuning_keeps_admin_and_token() {
    assert_eq!(check_initialize(false), Ok(()));
    assert_eq!(check_initialize(true), Err(Error::AlreadyInitialized));
    let env = quiet_env();
    let admin = Address::generate(&env);
    let token = Address::generate(&env);
    let config = Config {
        admin: admin.clone(),
        token: token.clone(),
        entry_fee: 1,
        payout_multiplier_bps: 100,
        max_rolls: 15,
        round_seconds: 90,
    };
    let updated = reconfigure(config, 2, 300, 10, 60);
    assert_eq!(updated.admin, admin);
    assert_eq!(updated.token, token);
    assert_eq!(updated.entry_fee, 2);
    assert_eq!(updated.payout_multiplier_bps, 300);
    assert_eq!(updated.max_rolls, 10);
    assert_eq!(updated.round_seconds, 60);
}

#[test]
fn claim_rules_refuse_an_item_that_is_not_a_mask() {
    let env = quiet_env();
    let mut raw: Vec<Val> = Vec::new(&env);
    raw.push_back(353u32.into_val(&env));
    raw.push_back(Symbol::new(&env, "hold").into_val(&env));
    let raw_val: Val = raw.into_val(&env);
    let seq = Vec::<u32>::try_from_val(&env, &raw_val).unwrap();
    assert_eq!(seq.len(), 2);
    assert_eq!(check_claim(&env, &session(3), 0, &seq), Err(Error::InvalidHoldMask));
    assert_eq!(replay_sequence(&env, 3, &seq), Err(Error::InvalidHoldMask));
}

#[test]
fn mix64_gives_distinct_outputs_for_distinct_inputs() {
    let inputs = [0u64, 1, 2, 3, 42, u64::MAX, u64::MAX - 1, 1 << 63, 0x1234_5678_9abc_def0];
    for (i, a) in inputs.iter().enumerate() {
        for b in inputs.iter().skip(i + 1) {
            assert_ne!(mix64(*a), mix64(*b));
        }
    }
}

#[test]
fn roll_and_die_index_separated_for_every_index_tried() {
    for index in [1u32, 2, 3, 10, 15, 1 << 31, u32::MAX] {
        assert_ne!(mix_key(42, index, 0), mix_key(42, 0, index));
    }
}
