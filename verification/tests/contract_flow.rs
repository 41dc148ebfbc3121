use dice_game::contract::Transfer;
use dice_game::dice::{all_equal, HOLD_ALL};
use dice_game::host::{InstanceStore, SessionStore};
use dice_game::strategy::play_greedy;
use dice_game::{DiceGame, Error, Session};
use soroban_sdk::testutils::{Address as _, ContractFunctionSet, Ledger};
use soroban_sdk::token::{StellarAssetClient, TokenClient};
use soroban_sdk::testutils::EnvTestConfig;
use soroban_sdk::{Address, Env, IntoVal, Symbol, TryFromVal, Val, Vec};

/// A registered contract with no entry points of its own: the game's
/// functions run in its frame through `Env::as_contract`.
struct GameFrame;

impl ContractFunctionSet for GameFrame {
    fn call(&self, _func: &str, _env: Env, _args: &[Val]) -> Option<Val> {
        None
    }
}

const ENTRY_FEE: i128 = 10_000_000; // 1 XLM
const PAYOUT_MULTIPLIER_BPS: u32 = 200; // 2x
const MAX_ROLLS: u32 = 15;
const ROUND_SECONDS: u64 = 180;

struct Setup {
    env: Env,
    contract_id: Address,
    admin: Address,
    token: TokenClient<'static>,
    token_admin: StellarAssetClient<'static>,
    player: Address,
}

impl Setup {
    fn run<T>(&self, f: impl FnOnce() -> T) -> T {
        self.env.as_contract(&self.contract_id, f)
    }

    fn pay(&self, transfer: &Transfer) {
        TokenClient::new(&self.env, &transfer.token).transfer(
            &transfer.from,
            &transfer.to,
            &transfer.amount,
        );
    }

    fn start_game(&self, player: &Address) -> Result<Session, Error> {
        self.run(|| {
            player.require_auth();
            let config_store = InstanceStore::open(&self.env);
            let mut sessions = SessionStore::open(&self.env);
            let now = self.env.ledger().timestamp();
            let seed: u64 = self.env.prng().gen();
            let contract = self.env.current_contract_address();
            let (session, fee) = DiceGame::start_game(
                &config_store,
                &mut sessions,
                player.clone(),
                contract,
                now,
                seed,
            )?;
            self.pay(&fee);
            Ok(session)
        })
    }

    fn claim(&self, player: &Address, sequence: &Vec<u32>) -> Result<i128, Error> {
        self.run(|| {
            player.require_auth();
            let config_store = InstanceStore::open(&self.env);
            let mut sessions = SessionStore::open(&self.env);
            let now = self.env.ledger().timestamp();
            let contract = self.env.current_contract_address();
            let reserve = match DiceGame::get_config(&config_store) {
                Ok(config) => TokenClient::new(&self.env, &config.token).balance(&contract),
                Err(_) => 0,
            };
            let payout = DiceGame::claim(
                &self.env,
                &config_store,
                &mut sessions,
                player.clone(),
                contract,
                sequence,
                now,
                reserve,
            )?;
            self.pay(&payout);
            Ok(payout.amount)
        })
    }

    fn get_session(&self, player: &Address) -> Option<Session> {
        self.run(|| DiceGame::get_session(&SessionStore::open(&self.env), player))
    }

    fn set_config(&self, entry_fee: i128, bps: u32, max_rolls: u32, round_seconds: u64) {
        self.run(|| {
            let mut config_store = InstanceStore::open(&self.env);
            let config = DiceGame::get_config(&config_store).unwrap();
            config.admin.require_auth();
            DiceGame::set_config(&mut config_store, entry_fee, bps, max_rolls, round_seconds)
        })
        .unwrap();
    }

    fn deposit(&self, from: &Address, amount: i128) -> Result<(), Error> {
        self.run(|| {
            from.require_auth();
            let config_store = InstanceStore::open(&self.env);
            let contract = self.env.current_contract_address();
            let transfer = DiceGame::deposit(&config_store, from.clone(), contract, amount)?;
            self.pay(&transfer);
            Ok(())
        })
    }

    fn withdraw(&self, amount: i128) -> Result<(), Error> {
        self.run(|| {
            let config_store = InstanceStore::open(&self.env);
            let config = DiceGame::get_config(&config_store)?;
            config.admin.require_auth();
            let contract = self.env.current_contract_address();
            let transfer = DiceGame::withdraw(&config_store, contract, amount)?;
            self.pay(&transfer);
            Ok(())
        })
    }
}

fn create_token<'a>(env: &Env, admin: &Address) -> (TokenClient<'a>, StellarAssetClient<'a>) {
    let sac = env.register_stellar_asset_contract_v2(admin.clone());
    (
        TokenClient::new(env, &sac.address()),
        StellarAssetClient::new(env, &sac.address()),
    )
}

fn setup() -> Setup {
    let env = Env::new_with_config(EnvTestConfig {
        capture_snapshot_at_drop: false,
    });
    env.mock_all_auths_allowing_non_root_auth();

    let admin = Address::generate(&env);
    let player = Address::generate(&env);
    let (token, token_admin) = create_token(&env, &admin);

    let contract_id = env.register(GameFrame, ());
    env.as_contract(&contract_id, || {
        let mut config_store = InstanceStore::open(&env);
        DiceGame::initialize(
            &mut config_store,
            admin.clone(),
            token.address.clone(),
            ENTRY_FEE,
            PAYOUT_MULTIPLIER_BPS,
            MAX_ROLLS,
            ROUND_SECONDS,
        )
    })
    .unwrap();

    // Fund the player and pre-fund the contract's house reserve so payouts
    // above 1x entry fee can always be covered in tests.
    token_admin.mint(&player, &(ENTRY_FEE * 10));
    token_admin.mint(&contract_id, &(ENTRY_FEE * 10));

    Setup {
        env,
        contract_id,
        admin,
        token,
        token_admin,
        player,
    }
}

fn new_funded_player(s: &Setup) -> Address {
    let player = Address::generate(&s.env);
    s.token_admin.mint(&player, &(ENTRY_FEE * 10));
    player
}

/// Retries fresh players/seeds until the greedy strategy wins within
/// max_rolls, up to `attempts` tries.
fn find_winning_sequence(s: &Setup, attempts: u32) -> Option<(Address, u64, Vec<u32>)> {
    for _ in 0..attempts {
        let player = new_funded_player(s);
        let session = s.start_game(&player).unwrap();
        let (final_dice, sequence) = play_greedy(&s.env, session.seed, session.max_rolls);
        if all_equal(&final_dice) {
            return Some((player, session.seed, sequence));
        }
    }
    None
}

#[test]
fn test_win_and_claim_pays_out_and_clears_session() {
    let s = setup();

    let (player, _seed, sequence) =
        find_winning_sequence(&s, 30).expect("greedy strategy should win within 30 fresh seeds");

    let balance_before = s.token.balance(&player);
    let payout = s.claim(&player, &sequence).unwrap();
    assert_eq!(payout, ENTRY_FEE * PAYOUT_MULTIPLIER_BPS as i128 / 100);
    assert_eq!(s.token.balance(&player), balance_before + payout);

    // Session cleared - a new game can be started immediately.
    let fresh = s.start_game(&player).unwrap();
    assert_eq!(fresh.max_rolls, MAX_ROLLS);
}

#[test]
fn test_losing_game_costs_no_transaction_and_cannot_be_claimed() {
    let s = setup();

    s.set_config(ENTRY_FEE, PAYOUT_MULTIPLIER_BPS, 1, ROUND_SECONDS);
    let session = s.start_game(&s.player).unwrap();
    assert_eq!(session.max_rolls, 1);

    let (final_dice, sequence) = play_greedy(&s.env, session.seed, session.max_rolls);
    assert!(
        !all_equal(&final_dice),
        "expected this to be a loss given max_rolls=1"
    );

    let result = s.claim(&s.player, &sequence);
    assert_eq!(result, Err(Error::NotWon));

    s.env
        .ledger()
        .set_timestamp(s.env.ledger().timestamp() + ROUND_SECONDS + 1);
    let fresh = s.start_game(&s.player).unwrap();
    assert_eq!(fresh.max_rolls, 1);
}

#[test]
fn test_start_game_rejected_while_session_active() {
    let s = setup();

    s.start_game(&s.player).unwrap();
    let result = s.start_game(&s.player);
    assert_eq!(result, Err(Error::SessionActive));
}

#[test]
fn test_claim_after_deadline_rejected_even_with_winning_sequence() {
    let s = setup();

    let (player, _seed, sequence) =
        find_winning_sequence(&s, 30).expect("greedy strategy should win within 30 fresh seeds");

    s.env
        .ledger()
        .set_timestamp(s.env.ledger().timestamp() + ROUND_SECONDS + 1);

    let result = s.claim(&player, &sequence);
    assert_eq!(result, Err(Error::SessionExpired));

    // Expired session should be overwritable by a fresh start_game.
    let session = s.start_game(&player).unwrap();
    assert_eq!(session.max_rolls, MAX_ROLLS);
}

#[test]
fn test_claim_without_win_fails() {
    let s = setup();

    s.start_game(&s.player).unwrap();
    let mut sequence: Vec<u32> = Vec::new(&s.env);
    sequence.push_back(0);
    let result = s.claim(&s.player, &sequence);
    assert_eq!(result, Err(Error::NotWon));
}

#[test]
fn test_empty_sequence_rejected() {
    let s = setup();

    s.start_game(&s.player).unwrap();
    let empty: Vec<u32> = Vec::new(&s.env);
    let result = s.claim(&s.player, &empty);
    assert_eq!(result, Err(Error::InvalidRollSequence));
}

#[test]
fn test_sequence_longer_than_max_rolls_rejected() {
    let s = setup();

    s.start_game(&s.player).unwrap();
    let mut sequence: Vec<u32> = Vec::new(&s.env);
    for _ in 0..(MAX_ROLLS + 1) {
        sequence.push_back(0);
    }
    let result = s.claim(&s.player, &sequence);
    assert_eq!(result, Err(Error::MaxRollsReached));
}

#[test]
fn test_early_win_with_trailing_entries_rejected() {
    let s = setup();

    let (player, _seed, mut sequence) =
        find_winning_sequence(&s, 30).expect("greedy strategy should win within 30 fresh seeds");
    sequence.push_back(HOLD_ALL);

    let result = s.claim(&player, &sequence);
    assert_eq!(result, Err(Error::InvalidRollSequence));
}

#[test]
fn test_set_config_updates_future_sessions_not_live_ones() {
    let s = setup();

    let live_session = s.start_game(&s.player).unwrap();
    assert_eq!(live_session.entry_fee, ENTRY_FEE);

    s.set_config(ENTRY_FEE * 2, PAYOUT_MULTIPLIER_BPS * 2, MAX_ROLLS, ROUND_SECONDS);

    let still_live = s.get_session(&s.player).unwrap();
    assert_eq!(still_live.entry_fee, ENTRY_FEE);
    assert_eq!(still_live.payout_multiplier_bps, PAYOUT_MULTIPLIER_BPS);
}

#[test]
fn test_invalid_hold_mask_rejected() {
    let s = setup();

    s.start_game(&s.player).unwrap();
    let mut sequence: Vec<u32> = Vec::new(&s.env);
    sequence.push_back(1u32 << 10);
    let result = s.claim(&s.player, &sequence);
    assert_eq!(result, Err(Error::InvalidHoldMask));
}

#[test]
fn test_insufficient_reserve_guarded() {
    let s = setup();

    s.set_config(ENTRY_FEE, u32::MAX, MAX_ROLLS, ROUND_SECONDS);

    let (player, _seed, sequence) =
        find_winning_sequence(&s, 30).expect("greedy strategy should win within 30 fresh seeds");
    let result = s.claim(&player, &sequence);
    assert_eq!(result, Err(Error::InsufficientReserve));
}

#[test]
fn test_admin_can_withdraw_reserve() {
    let s = setup();

    let admin_balance_before = s.token.balance(&s.admin);
    let contract_balance_before = s.token.balance(&s.contract_id);
    s.withdraw(ENTRY_FEE).unwrap();
    assert_eq!(s.token.balance(&s.admin), admin_balance_before + ENTRY_FEE);
    assert_eq!(s.token.balance(&s.contract_id), contract_balance_before - ENTRY_FEE);
}

#[test]
fn test_anyone_can_deposit() {
    let s = setup();

    let contract_balance_before = s.token.balance(&s.contract_id);
    s.token_admin.mint(&s.player, &ENTRY_FEE);
    s.deposit(&s.player, ENTRY_FEE).unwrap();
    assert_eq!(
        s.token.balance(&s.contract_id),
        contract_balance_before + ENTRY_FEE
    );
}

#[test]
fn claim_refuses_a_sequence_holding_something_other_than_masks() {
    let s = setup();

    s.start_game(&s.player).unwrap();
    let mut raw: Vec<Val> = Vec::new(&s.env);
    raw.push_back(Symbol::new(&s.env, "hold").into_val(&s.env));
    let raw_val: Val = raw.into_val(&s.env);
    let sequence = Vec::<u32>::try_from_val(&s.env, &raw_val).unwrap();
    let result = s.claim(&s.player, &sequence);
    assert_eq!(result, Err(Error::InvalidHoldMask));
}
