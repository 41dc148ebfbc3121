//! Deterministic dice: a keyed SplitMix64 hash gives every
//! `(seed, roll_index, die_index)` its own face, so any roll of any die can
//! be recomputed directly without threading state through a sequence.

use vstd::prelude::*;

use crate::host::{
    holds_only_u32s, host_u32_items, u32_items, u32_vec_len, u32_vec_new, u32_vec_push_back,
    u32_vec_try_get,
};

verus! {

/// First multiplier of Vigna's published SplitMix64 finalizer.
pub const MIX_MUL_A: u64 = 0xbf58476d1ce4e5b9;

/// Second multiplier of Vigna's published SplitMix64 finalizer.
pub const MIX_MUL_B: u64 = 0x94d049bb133111eb;

/// Key multiplier that spreads the roll index (the golden-ratio constant).
pub const ROLL_KEY_MUL: u64 = 0x9E3779B97F4A7C15;

/// Key multiplier that spreads the die index.
pub const DIE_KEY_MUL: u64 = 0xC2B2AE3D27D4EB4F;

/// The SplitMix64 finalizer.
pub open spec fn mix64_spec(z: u64) -> u64 {
    let z1 = z ^ (z >> 30u64);
    let z2 = z1.wrapping_mul(MIX_MUL_A);
    let z3 = z2 ^ (z2 >> 27u64);
    let z4 = z3.wrapping_mul(MIX_MUL_B);
    z4 ^ (z4 >> 31u64)
}

/// The hash key of one die in one roll.
pub open spec fn mix_key_spec(seed: u64, roll_index: u32, die_index: u32) -> u64 {
    seed ^ (roll_index as u64).wrapping_mul(ROLL_KEY_MUL) ^ (die_index as u64).wrapping_mul(
        DIE_KEY_MUL,
    )
}

/// The face, from 1 to 6, of one die in one roll.
pub open spec fn die_value_spec(seed: u64, roll_index: u32, die_index: u32) -> u32 {
    ((mix64_spec(mix_key_spec(seed, roll_index, die_index)) % 6) + 1) as u32
}

/// SplitMix64 finalizer (Vigna's published constants).
pub fn mix64(z: u64) -> (r: u64)
    ensures
        r == mix64_spec(z),
        r == ({
            let z1 = z ^ (z >> 30u64);
            let z2 = z1.wrapping_mul(0xbf58476d1ce4e5b9u64);
            let z3 = z2 ^ (z2 >> 27u64);
            let z4 = z3.wrapping_mul(0x94d049bb133111ebu64);
            z4 ^ (z4 >> 31u64)
        }),
{
    let mut z = z;
    z = z ^ (z >> 30u64);
    z = z.wrapping_mul(MIX_MUL_A);
    z = z ^ (z >> 27u64);
    z = z.wrapping_mul(MIX_MUL_B);
    z = z ^ (z >> 31u64);
    z
}

/// Mixes the seed with the roll index and the die index, each spread by a
/// constant of its own so that the two indices are domain-separated.
pub fn mix_key(seed: u64, roll_index: u32, die_index: u32) -> (r: u64)
    ensures
        r == mix_key_spec(seed, roll_index, die_index),
        r == seed ^ (roll_index as u64).wrapping_mul(0x9E3779B97F4A7C15u64) ^ (
        die_index as u64).wrapping_mul(0xC2B2AE3D27D4EB4Fu64),
{
    seed ^ (roll_index as u64).wrapping_mul(ROLL_KEY_MUL) ^ (die_index as u64).wrapping_mul(
        DIE_KEY_MUL,
    )
}

/// Deterministic die face for a given `(seed, roll_index, die_index)`.
pub fn die_value(seed: u64, roll_index: u32, die_index: u32) -> (r: u32)
    ensures
        r == die_value_spec(seed, roll_index, die_index),
        r == ((mix64_spec(
            seed ^ (roll_index as u64).wrapping_mul(0x9E3779B97F4A7C15u64) ^ (
            die_index as u64).wrapping_mul(0xC2B2AE3D27D4EB4Fu64),
        ) % 6) + 1) as u32,
        1 <= r <= 6,
{
    let key = mix_key(seed, roll_index, die_index);
    ((mix64(key) % 6) + 1) as u32
}

/// A new host vector holds no items.
pub proof fn lemma_u32_items_empty(v: soroban_sdk::Vec<u32>)
    requires
        host_u32_items(v) == Seq::<Option<u32>>::empty(),
    ensures
        u32_items(v) == Seq::<u32>::empty(),
        holds_only_u32s(v),
{
    assert(u32_items(v) =~= Seq::<u32>::empty());
}

/// Pushing a `u32` onto a host vector appends it to the items.
pub proof fn lemma_u32_items_push(a: soroban_sdk::Vec<u32>, b: soroban_sdk::Vec<u32>, x: u32)
    requires
        host_u32_items(b) == host_u32_items(a).push(Some(x)),
    ensures
        u32_items(b) == u32_items(a).push(x),
        holds_only_u32s(a) ==> holds_only_u32s(b),
{
    assert(u32_items(b) =~= u32_items(a).push(x));
    if holds_only_u32s(a) {
        assert forall|i: int| 0 <= i < host_u32_items(b).len() implies (#[trigger] host_u32_items(
            b,
        )[i]) is Some by {
            if i < host_u32_items(a).len() {
                assert(host_u32_items(b)[i] == host_u32_items(a)[i]);
            }
        }
    }
}

/// The item at position `i` of a host vector of `u32`, an item that is not
/// a `u32` read as `u32::MAX`.
pub fn u32_item_at(v: &soroban_sdk::Vec<u32>, i: u32) -> (r: u32)
    requires
        i < u32_items(*v).len(),
    ensures
        r == u32_items(*v)[i as int],
{
    match u32_vec_try_get(v, i) {
        Ok(Some(x)) => x,
        Ok(None) => u32::MAX,
        Err(_) => u32::MAX,
    }
}

/// Number of dice in a game.
pub const DICE_PER_ROLL: u32 = 10;

/// The faces of the first `n` dice of one roll, all rolled afresh.
pub open spec fn roll_spec(seed: u64, roll_index: u32, n: nat) -> Seq<u32> {
    Seq::new(n, |i: int| die_value_spec(seed, roll_index, i as u32))
}

/// Whether die `i` is held by `held_mask` (bit `i` set).
pub open spec fn is_held(held_mask: u32, i: int) -> bool {
    held_mask & (1u32 << (i as u32)) != 0
}

/// The dice after roll `roll_index`: held dice keep their faces, every
/// other die gets its deterministic face for this roll.
pub open spec fn reroll_spec(dice: Seq<u32>, held_mask: u32, seed: u64, roll_index: u32) -> Seq<
    u32,
> {
    Seq::new(
        dice.len(),
        |i: int|
            if is_held(held_mask, i) {
                dice[i]
            } else {
                die_value_spec(seed, roll_index, i as u32)
            },
    )
}

/// There is at least one die and every die shows the first one's face.
pub open spec fn all_equal_spec(dice: Seq<u32>) -> bool {
    &&& dice.len() > 0
    &&& forall|i: int| 0 <= i < dice.len() ==> #[trigger] dice[i] == dice[0]
}

/// The ten dice of roll `roll_index` with nothing held (roll 0 is the
/// initial deal).
pub fn compute_dice(env: &soroban_sdk::Env, seed: u64, roll_index: u32) -> (dice:
    soroban_sdk::Vec<u32>)
    ensures
        u32_items(dice) == roll_spec(seed, roll_index, DICE_PER_ROLL as nat),
        u32_items(dice).len() == 10,
        forall|i: int|
            0 <= i < 10 ==> #[trigger] u32_items(dice)[i] == die_value_spec(
                seed,
                roll_index,
                i as u32,
            ),
        holds_only_u32s(dice),
{
    let mut dice = u32_vec_new(env);
    proof {
        lemma_u32_items_empty(dice);
    }
    let mut die_index: u32 = 0;
    while die_index < DICE_PER_ROLL
        invariant
            die_index <= DICE_PER_ROLL,
            u32_items(dice) == roll_spec(seed, roll_index, die_index as nat),
            holds_only_u32s(dice),
        decreases DICE_PER_ROLL - die_index,
    {
        let v = die_value(seed, roll_index, die_index);
        assert(u32_items(dice).len() == host_u32_items(dice).len());
        let ghost before = dice;
        u32_vec_push_back(&mut dice, v);
        proof {
            lemma_u32_items_push(before, dice, v);
        }
        assert(u32_items(dice) =~= roll_spec(seed, roll_index, (die_index + 1) as nat));
        die_index = die_index + 1;
    }
    dice
}

/// Applies `held_mask` (bit `i` set: die `i` is held) and rerolls every
/// unheld die deterministically for the given roll. A mask has 32 bits, so
/// at most 32 dice can be addressed.
pub fn reroll_unheld_deterministic(
    env: &soroban_sdk::Env,
    dice: &soroban_sdk::Vec<u32>,
    held_mask: u32,
    seed: u64,
    roll_index: u32,
) -> (new_dice: soroban_sdk::Vec<u32>)
    requires
        u32_items(*dice).len() <= 32,
        holds_only_u32s(*dice),
    ensures
        u32_items(new_dice) == reroll_spec(u32_items(*dice), held_mask, seed, roll_index),
        u32_items(new_dice).len() == u32_items(*dice).len(),
        forall|i: int|
            0 <= i < u32_items(*dice).len() ==> #[trigger] u32_items(new_dice)[i] == (if held_mask
                & (1u32 << (i as u32)) != 0 {
                u32_items(*dice)[i]
            } else {
                die_value_spec(seed, roll_index, i as u32)
            }),
        holds_only_u32s(new_dice),
{
    let ghost old_dice = u32_items(*dice);
    let mut new_dice = u32_vec_new(env);
    proof {
        lemma_u32_items_empty(new_dice);
    }
    let n = u32_vec_len(dice);
    let mut i: u32 = 0;
    while i < n
        invariant
            n == old_dice.len(),
            n <= 32,
            i <= n,
            old_dice == u32_items(*dice),
            u32_items(new_dice) == reroll_spec(old_dice, held_mask, seed, roll_index).take(
                i as int,
            ),
            holds_only_u32s(new_dice),
        decreases n - i,
    {
        let next = if held_mask & (1u32 << i) != 0 {
            u32_item_at(dice, i)
        } else {
            die_value(seed, roll_index, i)
        };
        assert(u32_items(new_dice).len() == host_u32_items(new_dice).len());
        let ghost before = new_dice;
        u32_vec_push_back(&mut new_dice, next);
        proof {
            lemma_u32_items_push(before, new_dice, next);
        }
        assert(u32_items(new_dice) =~= reroll_spec(old_dice, held_mask, seed, roll_index).take(
            (i + 1) as int,
        ));
        i = i + 1;
    }
    assert(reroll_spec(old_dice, held_mask, seed, roll_index).take(n as int) =~= reroll_spec(
        old_dice,
        held_mask,
        seed,
        roll_index,
    ));
    new_dice
}

/// Whether the dice are a win: at least one die, all showing one face.
pub fn all_equal(dice: &soroban_sdk::Vec<u32>) -> (r: bool)
    requires
        holds_only_u32s(*dice),
    ensures
        r == all_equal_spec(u32_items(*dice)),
        r == (u32_items(*dice).len() > 0 && forall|i: int, j: int|
            0 <= i < u32_items(*dice).len() && 0 <= j < u32_items(*dice).len() ==> #[trigger] u32_items(
                *dice,
            )[i] == #[trigger] u32_items(*dice)[j]),
{
    proof {
        lemma_all_equal_pairwise(u32_items(*dice));
    }
    let ghost d = u32_items(*dice);
    let n = u32_vec_len(dice);
    if n == 0 {
        return false;
    }
    let first = u32_item_at(dice, 0);
    let mut i: u32 = 1;
    while i < n
        invariant
            n == d.len(),
            1 <= i <= n,
            d == u32_items(*dice),
            first == d[0],
            forall|j: int| 0 <= j < i ==> d[j] == first,
        decreases n - i,
    {
        if u32_item_at(dice, i) != first {
            return false;
        }
        i = i + 1;
    }
    true
}

/// The dice are a win exactly when there is at least one die and any two
/// dice show the same face.
pub proof fn lemma_all_equal_pairwise(dice: Seq<u32>)
    ensures
        all_equal_spec(dice) == (dice.len() > 0 && forall|i: int, j: int|
            0 <= i < dice.len() && 0 <= j < dice.len() ==> #[trigger] dice[i] == #[trigger] dice[j]),
{
    if all_equal_spec(dice) {
        assert forall|i: int, j: int|
            0 <= i < dice.len() && 0 <= j < dice.len() implies #[trigger] dice[i]
            == #[trigger] dice[j] by {
            assert(dice[i] == dice[0]);
            assert(dice[j] == dice[0]);
        }
    }
    if dice.len() > 0 && forall|i: int, j: int|
        0 <= i < dice.len() && 0 <= j < dice.len() ==> #[trigger] dice[i] == #[trigger] dice[j] {
        assert forall|i: int| 0 <= i < dice.len() implies #[trigger] dice[i] == dice[0] by {
            assert(dice[i] == dice[0]);
        }
    }
}

/// The SplitMix64 finalizer, step by step with Vigna's published
/// constants.
pub proof fn lemma_mix64_formula(z: u64)
    ensures
        mix64_spec(z) == ({
            let z1 = z ^ (z >> 30u64);
            let z2 = z1.wrapping_mul(0xbf58476d1ce4e5b9u64);
            let z3 = z2 ^ (z2 >> 27u64);
            let z4 = z3.wrapping_mul(0x94d049bb133111ebu64);
            z4 ^ (z4 >> 31u64)
        }),
{
}

/// The hash key is the whole seed xored with a value of the two indices
/// alone: each index spread by its own constant. With both indices 0 the
/// key is the seed itself, and two seeds' keys for the same die differ by
/// exactly the seeds' difference.
pub proof fn lemma_mix_key_formula(
    seed: u64,
    other_seed: u64,
    roll_index: u32,
    die_index: u32,
)
    ensures
        mix_key_spec(seed, roll_index, die_index) == seed ^ (roll_index as u64).wrapping_mul(
            0x9E3779B97F4A7C15u64,
        ) ^ (die_index as u64).wrapping_mul(0xC2B2AE3D27D4EB4Fu64),
        mix_key_spec(seed, 0, 0) == seed,
        mix_key_spec(seed, roll_index, die_index) ^ seed == mix_key_spec(
            other_seed,
            roll_index,
            die_index,
        ) ^ other_seed,
{
    assert(0u64.wrapping_mul(0x9E3779B97F4A7C15u64) == 0u64) by (bit_vector);
    assert(0u64.wrapping_mul(0xC2B2AE3D27D4EB4Fu64) == 0u64) by (bit_vector);
    assert(seed ^ 0u64 ^ 0u64 == seed) by (bit_vector);
    let a = (roll_index as u64).wrapping_mul(ROLL_KEY_MUL);
    let b = (die_index as u64).wrapping_mul(DIE_KEY_MUL);
    assert((seed ^ a ^ b) ^ seed == (other_seed ^ a ^ b) ^ other_seed) by (bit_vector);
}

/// A die's face is the SplitMix64 finalizer of its key, reduced to 1 to 6.
pub proof fn lemma_die_value_formula(seed: u64, roll_index: u32, die_index: u32)
    ensures
        die_value_spec(seed, roll_index, die_index) == ((mix64_spec(
            seed ^ (roll_index as u64).wrapping_mul(0x9E3779B97F4A7C15u64) ^ (
            die_index as u64).wrapping_mul(0xC2B2AE3D27D4EB4Fu64),
        ) % 6) + 1) as u32,
{
}

/// A fresh roll gives each die its own face for the full seed, and is the
/// same as a reroll of any dice with nothing held.
pub proof fn lemma_roll_is_die_values(
    seed: u64,
    roll_index: u32,
    dice: Seq<u32>,
    i: int,
)
    requires
        0 <= i < dice.len() <= 32,
    ensures
        roll_spec(seed, roll_index, dice.len())[i] == die_value_spec(seed, roll_index, i as u32),
        reroll_spec(dice, 0, seed, roll_index) == roll_spec(seed, roll_index, dice.len()),
{
    assert forall|k: int| 0 <= k < dice.len() implies !is_held(0, k) by {
        let b = k as u32;
        assert(0u32 & (1u32 << b) == 0u32) by (bit_vector);
    }
    assert(reroll_spec(dice, 0, seed, roll_index) =~= roll_spec(seed, roll_index, dice.len()));
}

/// Every die shows a face from 1 to 6, for every seed, roll and die.
pub proof fn lemma_die_value_in_range(seed: u64, roll_index: u32, die_index: u32)
    ensures
        1 <= die_value_spec(seed, roll_index, die_index) <= 6,
{
}

/// The multiplicative inverse of `MIX_MUL_A` modulo 2^64.
pub const MIX_MUL_A_INVERSE: u64 = 0x96de1b173f119089;

/// The multiplicative inverse of `MIX_MUL_B` modulo 2^64.
pub const MIX_MUL_B_INVERSE: u64 = 0x319642b2d24d8ec3;

/// Each xorshift step of the finalizer loses no information.
proof fn lemma_xorshift_injective(a: u64, b: u64)
    ensures
        (a ^ (a >> 30u64)) == (b ^ (b >> 30u64)) ==> a == b,
        (a ^ (a >> 27u64)) == (b ^ (b >> 27u64)) ==> a == b,
        (a ^ (a >> 31u64)) == (b ^ (b >> 31u64)) ==> a == b,
{
    assert((a ^ (a >> 30u64)) == (b ^ (b >> 30u64)) ==> a == b) by (bit_vector);
    assert((a ^ (a >> 27u64)) == (b ^ (b >> 27u64)) ==> a == b) by (bit_vector);
    assert((a ^ (a >> 31u64)) == (b ^ (b >> 31u64)) ==> a == b) by (bit_vector);
}

/// Each multiplication step of the finalizer is by an odd constant, which
/// has an inverse modulo 2^64, so it loses no information.
proof fn lemma_mix_mul_injective(a: u64, b: u64)
    ensures
        a.wrapping_mul(MIX_MUL_A) == b.wrapping_mul(MIX_MUL_A) ==> a == b,
        a.wrapping_mul(MIX_MUL_B) == b.wrapping_mul(MIX_MUL_B) ==> a == b,
{
    assert(a.wrapping_mul(0xbf58476d1ce4e5b9u64) == (a * 0xbf58476d1ce4e5b9u64) as u64)
        by (bit_vector);
    assert(b.wrapping_mul(0xbf58476d1ce4e5b9u64) == (b * 0xbf58476d1ce4e5b9u64) as u64)
        by (bit_vector);
    assert(a.wrapping_mul(0x94d049bb133111ebu64) == (a * 0x94d049bb133111ebu64) as u64)
        by (bit_vector);
    assert(b.wrapping_mul(0x94d049bb133111ebu64) == (b * 0x94d049bb133111ebu64) as u64)
        by (bit_vector);
    assert(((a * 0xbf58476d1ce4e5b9u64) as u64 * 0x96de1b173f119089u64) as u64 == a)
        by (bit_vector);
    assert(((b * 0xbf58476d1ce4e5b9u64) as u64 * 0x96de1b173f119089u64) as u64 == b)
        by (bit_vector);
    assert(((a * 0x94d049bb133111ebu64) as u64 * 0x319642b2d24d8ec3u64) as u64 == a)
        by (bit_vector);
    assert(((b * 0x94d049bb133111ebu64) as u64 * 0x319642b2d24d8ec3u64) as u64 == b)
        by (bit_vector);
}

/// The SplitMix64 finalizer is a permutation of `u64`: different inputs
/// give different outputs.
pub proof fn lemma_mix64_injective(a: u64, b: u64)
    requires
        mix64_spec(a) == mix64_spec(b),
    ensures
        a == b,
{
    let a1 = a ^ (a >> 30u64);
    let b1 = b ^ (b >> 30u64);
    let a2 = a1.wrapping_mul(MIX_MUL_A);
    let b2 = b1.wrapping_mul(MIX_MUL_A);
    let a3 = a2 ^ (a2 >> 27u64);
    let b3 = b2 ^ (b2 >> 27u64);
    let a4 = a3.wrapping_mul(MIX_MUL_B);
    let b4 = b3.wrapping_mul(MIX_MUL_B);
    lemma_xorshift_injective(a4, b4);
    lemma_mix_mul_injective(a3, b3);
    lemma_xorshift_injective(a2, b2);
    lemma_mix_mul_injective(a1, b1);
    lemma_xorshift_injective(a, b);
}

/// The roll index and the die index are domain-separated: for every
/// nonzero index, die 0 of roll `index` and die `index` of roll 0 never
/// share a hash key, whatever the seed.
pub proof fn lemma_roll_and_die_index_separated(seed: u64, index: u32)
    requires
        index != 0,
    ensures
        mix_key_spec(seed, index, 0) != mix_key_spec(seed, 0, index),
{
    let x = index as u64;
    assert(x.wrapping_mul(0x9E3779B97F4A7C15u64) == (x * 0x9E3779B97F4A7C15u64) as u64)
        by (bit_vector);
    assert(x.wrapping_mul(0xC2B2AE3D27D4EB4Fu64) == (x * 0xC2B2AE3D27D4EB4Fu64) as u64)
        by (bit_vector);
    assert(0u64.wrapping_mul(0x9E3779B97F4A7C15u64) == 0u64) by (bit_vector);
    assert(0u64.wrapping_mul(0xC2B2AE3D27D4EB4Fu64) == 0u64) by (bit_vector);
    assert(x != 0 && x < 0x1_0000_0000u64 ==> (x * 0x9E3779B97F4A7C15u64) as u64 != (x
        * 0xC2B2AE3D27D4EB4Fu64) as u64) by (bit_vector);
    let p = x.wrapping_mul(ROLL_KEY_MUL);
    let q = x.wrapping_mul(DIE_KEY_MUL);
    assert(p != q ==> (seed ^ p ^ 0u64) != (seed ^ 0u64 ^ q)) by (bit_vector);
}

/// Different seeds give different hash keys for the same die of the same
/// roll: the key determines the seed.
pub proof fn lemma_mix_key_separates_seeds(seed1: u64, seed2: u64, roll_index: u32, die_index: u32)
    requires
        seed1 != seed2,
    ensures
        mix_key_spec(seed1, roll_index, die_index) != mix_key_spec(seed2, roll_index, die_index),
{
    let a = (roll_index as u64).wrapping_mul(ROLL_KEY_MUL);
    let b = (die_index as u64).wrapping_mul(DIE_KEY_MUL);
    assert(seed1 != seed2 ==> (seed1 ^ a ^ b) != (seed2 ^ a ^ b)) by (bit_vector);
}

/// A reroll keeps every held die and gives every unheld die its face for
/// the new roll; the number of dice does not change.
pub proof fn lemma_reroll_keeps_held(
    dice: Seq<u32>,
    held_mask: u32,
    seed: u64,
    roll_index: u32,
    i: int,
)
    requires
        0 <= i < dice.len(),
    ensures
        reroll_spec(dice, held_mask, seed, roll_index).len() == dice.len(),
        is_held(held_mask, i) ==> reroll_spec(dice, held_mask, seed, roll_index)[i] == dice[i],
        !is_held(held_mask, i) ==> reroll_spec(dice, held_mask, seed, roll_index)[i]
            == die_value_spec(seed, roll_index, i as u32),
{
}

/// The mask that holds all ten dice.
pub const HOLD_ALL: u32 = 0x3ff;

/// Holding all ten dice leaves them as they are.
pub proof fn lemma_hold_all_keeps_dice(dice: Seq<u32>, seed: u64, roll_index: u32)
    requires
        dice.len() == DICE_PER_ROLL,
    ensures
        reroll_spec(dice, HOLD_ALL, seed, roll_index) == dice,
{
    assert forall|i: int| 0 <= i < dice.len() implies #[trigger] is_held(HOLD_ALL, i) by {
        let k = i as u32;
        assert(k < 10 ==> 0x3ffu32 & (1u32 << k) != 0) by (bit_vector);
    }
    assert(reroll_spec(dice, HOLD_ALL, seed, roll_index) =~= dice);
}

/// Every die shows a face from 1 to 6.
pub open spec fn faces_in_range(dice: Seq<u32>) -> bool {
    forall|i: int| 0 <= i < dice.len() ==> 1 <= #[trigger] dice[i] <= 6
}

/// A fresh roll shows faces from 1 to 6.
pub proof fn lemma_roll_in_range(seed: u64, roll_index: u32, n: nat)
    ensures
        faces_in_range(roll_spec(seed, roll_index, n)),
{
}

/// A reroll of faces from 1 to 6 shows faces from 1 to 6.
pub proof fn lemma_reroll_in_range(dice: Seq<u32>, held_mask: u32, seed: u64, roll_index: u32)
    requires
        faces_in_range(dice),
    ensures
        faces_in_range(reroll_spec(dice, held_mask, seed, roll_index)),
{
}

} // verus!
