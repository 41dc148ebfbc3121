//! A reference strategy: the classic Tenzies play of holding the most
//! common current face and rerolling the rest.

use vstd::prelude::*;

use crate::dice::{
    all_equal, all_equal_spec, compute_dice, lemma_u32_items_empty, lemma_u32_items_push, u32_item_at, faces_in_range, is_held, reroll_unheld_deterministic,
    DICE_PER_ROLL, HOLD_ALL,
};
use crate::host::{holds_only_u32s, u32_items, u32_vec_len, u32_vec_new, u32_vec_push_back};
use crate::rules::{
    dice_after, initial_dice, lemma_dice_after_in_range, lemma_dice_after_prefix, lemma_dice_after_push,
    lemma_hold_all_keeps_dice_after_deal, lemma_replay_outcome, replay_outcome, HOLD_MASK_LIMIT,
};

verus! {

/// How many of the dice show `face`.
pub open spec fn face_count(dice: Seq<u32>, face: u32) -> nat
    decreases dice.len(),
{
    if dice.len() == 0 {
        0
    } else {
        face_count(dice.drop_last(), face) + if dice.last() == face {
            1nat
        } else {
            0nat
        }
    }
}

/// `face` is the face shown by the most dice, the lowest such face on a
/// tie.
pub open spec fn is_greedy_face(dice: Seq<u32>, face: u32) -> bool {
    &&& 1 <= face <= 6
    &&& forall|f: u32| 1 <= f <= 6 ==> face_count(dice, f) <= face_count(dice, face)
    &&& forall|f: u32| 1 <= f < face ==> face_count(dice, f) < face_count(dice, face)
}

/// The face the greedy strategy holds on: shown by the most dice, the
/// lowest on a tie.
pub open spec fn greedy_face(dice: Seq<u32>) -> u32 {
    choose|f: u32| is_greedy_face(dice, f)
}

/// There is at most one such face.
pub proof fn lemma_greedy_face_unique(dice: Seq<u32>, f1: u32, f2: u32)
    requires
        is_greedy_face(dice, f1),
        is_greedy_face(dice, f2),
    ensures
        f1 == f2,
{
    if f1 < f2 {
        assert(face_count(dice, f1) < face_count(dice, f2));
        assert(face_count(dice, f2) <= face_count(dice, f1));
    } else if f2 < f1 {
        assert(face_count(dice, f2) < face_count(dice, f1));
        assert(face_count(dice, f1) <= face_count(dice, f2));
    }
}

proof fn lemma_face_count_push(dice: Seq<u32>, x: u32, face: u32)
    ensures
        face_count(dice.push(x), face) == face_count(dice, face) + if x == face {
            1nat
        } else {
            0nat
        },
{
    assert(dice.push(x).drop_last() == dice);
}

/// Faces from 1 to 6 on a nonempty set of dice: some face from 1 to 6 is
/// counted at least once.
proof fn lemma_some_face_shown(dice: Seq<u32>)
    requires
        dice.len() > 0,
        faces_in_range(dice),
    ensures
        exists|f: u32| 1 <= f <= 6 && face_count(dice, f) > 0,
    decreases dice.len(),
{
    let f = dice.last();
    assert(face_count(dice, f) > 0);
}

/// Setting bit `i` of a mask below `1 << i` sets bit `i` and keeps every
/// lower bit as it was.
proof fn lemma_mask_bits(mask: u32, i: u32, j: u32)
    requires
        i < 10,
        j <= i,
        mask < (1u32 << i),
    ensures
        (mask | (1u32 << i)) & (1u32 << j) != 0 <==> (j == i || mask & (1u32 << j) != 0),
        j == i ==> mask & (1u32 << j) == 0,
{
    assert(i < 10 && j <= i && mask < (1u32 << i) ==> (((mask | (1u32 << i)) & (1u32 << j) != 0)
        <==> (j == i || mask & (1u32 << j) != 0))) by (bit_vector);
    assert(i < 10 && j == i && mask < (1u32 << i) ==> mask & (1u32 << j) == 0) by (bit_vector);
}

/// Setting bit `i` of a mask below `1 << i` gives a mask below `1 << (i + 1)`.
proof fn lemma_mask_grows(mask: u32, i: u32)
    requires
        i < 10,
        mask < (1u32 << i),
    ensures
        (mask | (1u32 << i)) < (1u32 << (i + 1)),
        mask < (1u32 << (i + 1)),
{
    assert(i < 10 && mask < (1u32 << i) ==> (mask | (1u32 << i)) < (1u32 << (i + 1))
        && mask < (1u32 << (i + 1))) by (bit_vector);
}

/// The face shown by the most dice, the lowest such face on a tie.
pub fn most_common_face(dice: &soroban_sdk::Vec<u32>) -> (mode_face: u32)
    requires
        faces_in_range(u32_items(*dice)),
        u32_items(*dice).len() == DICE_PER_ROLL,
    ensures
        is_greedy_face(u32_items(*dice), mode_face),
        mode_face == greedy_face(u32_items(*dice)),
{
    let ghost d = u32_items(*dice);
    let n = u32_vec_len(dice);
    let mut counts: Vec<u32> = vec![0u32, 0u32, 0u32, 0u32, 0u32, 0u32, 0u32];
    let mut i: u32 = 0;
    while i < n
        invariant
            n == DICE_PER_ROLL,
            i <= n,
            d == u32_items(*dice),
            d.len() == n,
            faces_in_range(d),
            counts@.len() == 7,
            forall|f: int| 0 <= f < 7 ==> #[trigger] counts@[f] == face_count(d.take(i as int), f as u32),
            forall|f: int| 0 <= f < 7 ==> #[trigger] counts@[f] <= i,
        decreases n - i,
    {
        let face = u32_item_at(dice, i);
        let f = face as usize;
        let c = counts[f];
        counts.set(f, c + 1);
        proof {
            assert(d.take(i + 1) == d.take(i as int).push(face));
            assert forall|g: int| 0 <= g < 7 implies #[trigger] counts@[g] == face_count(
                d.take(i + 1),
                g as u32,
            ) by {
                lemma_face_count_push(d.take(i as int), face, g as u32);
            }
        }
        i = i + 1;
    }
    assert(d.take(n as int) == d);
    let mut mode_face: u32 = 1;
    let mut mode_count: u32 = 0;
    let mut face: u32 = 1;
    while face <= 6
        invariant
            1 <= face <= 7,
            1 <= mode_face <= 6,
            mode_face < face || (face == 1 && mode_face == 1 && mode_count == 0),
            counts@.len() == 7,
            forall|f: int| 0 <= f < 7 ==> #[trigger] counts@[f] == face_count(d, f as u32),
            face > 1 ==> mode_count == face_count(d, mode_face),
            forall|f: u32| 1 <= f < face ==> face_count(d, f) <= mode_count,
            forall|f: u32| 1 <= f < mode_face ==> face_count(d, f) < mode_count,
            d == u32_items(*dice),
        decreases 7 - face,
    {
        if counts[face as usize] > mode_count {
            mode_count = counts[face as usize];
            mode_face = face;
        }
        face = face + 1;
    }
    proof {
        if mode_count == 0 {
            // Ten dice with faces from 1 to 6: some face is shown.
            lemma_some_face_shown(d);
        }
        assert(is_greedy_face(d, mode_face));
        lemma_greedy_face_unique(d, mode_face, choose|f: u32| is_greedy_face(d, f));
    }
    mode_face
}

/// The mask that holds exactly the dice showing `face`.
pub fn hold_mask_for_face(dice: &soroban_sdk::Vec<u32>, face: u32) -> (mask: u32)
    requires
        u32_items(*dice).len() == DICE_PER_ROLL,
        holds_only_u32s(*dice),
    ensures
        mask < HOLD_MASK_LIMIT,
        forall|i: int|
            0 <= i < DICE_PER_ROLL ==> (is_held(mask, i) <==> u32_items(*dice)[i] == face),
{
    let ghost d = u32_items(*dice);
    let n = u32_vec_len(dice);
    let mut mask: u32 = 0;
    let mut i: u32 = 0;
    assert(0u32 < (1u32 << 0u32)) by (bit_vector);
    while i < n
        invariant
            n == DICE_PER_ROLL,
            i <= n,
            d == u32_items(*dice),
            d.len() == n,
            mask < (1u32 << i),
            forall|j: int| 0 <= j < i ==> (is_held(mask, j) <==> d[j] == face),
        decreases n - i,
    {
        proof {
            lemma_mask_grows(mask, i);
        }
        let ghost old_mask = mask;
        if u32_item_at(dice, i) == face {
            mask = mask | (1u32 << i);
        }
        proof {
            assert forall|j: int| 0 <= j < i + 1 implies (is_held(mask, j) <==> d[j] == face) by {
                lemma_mask_bits(old_mask, i, j as u32);
            }
        }
        i = i + 1;
    }
    assert((1u32 << 10u32) == 1024u32) by (bit_vector);
    mask
}

/// Plays the greedy strategy from the initial deal for up to `max_rolls`
/// rolls, stopping at the first win, and returns the final dice with the
/// hold masks played. A win on the deal itself is played as the single mask
/// that holds every die, since a claim needs at least one entry.
pub fn play_greedy(env: &soroban_sdk::Env, seed: u64, max_rolls: u32) -> (r: (
    soroban_sdk::Vec<u32>,
    soroban_sdk::Vec<u32>,
))
    ensures
        u32_items(r.0) == dice_after(seed, u32_items(r.1), u32_items(r.1).len()),
        forall|k: int|
            0 <= k < u32_items(r.1).len() ==> #[trigger] u32_items(r.1)[k] < HOLD_MASK_LIMIT,
        all_equal_spec(initial_dice(seed)) ==> u32_items(r.1) == seq![HOLD_ALL],
        !all_equal_spec(initial_dice(seed)) ==> u32_items(r.1).len() <= max_rolls,
        !all_equal_spec(initial_dice(seed)) ==> (all_equal_spec(u32_items(r.0)) || u32_items(
            r.1,
        ).len() == max_rolls),
        !all_equal_spec(initial_dice(seed)) ==> forall|k: int, i: int|
            0 <= k < u32_items(r.1).len() && 0 <= i < DICE_PER_ROLL ==> (is_held(
                #[trigger] u32_items(r.1)[k],
                i,
            ) <==> #[trigger] dice_after(seed, u32_items(r.1), k as nat)[i] == greedy_face(
                dice_after(seed, u32_items(r.1), k as nat),
            )),
        forall|n: int|
            1 <= n < u32_items(r.1).len() ==> !all_equal_spec(
                #[trigger] dice_after(seed, u32_items(r.1), n as nat),
            ),
        all_equal_spec(u32_items(r.0)) ==> replay_outcome(seed, u32_items(r.1)) == Ok::<
            (),
            crate::types::Error,
        >(()),
{
    let mut dice = compute_dice(env, seed, 0);
    let mut sequence = u32_vec_new(env);
    proof {
        lemma_u32_items_empty(sequence);
    }
    if all_equal(&dice) {
        let ghost before = sequence;
        u32_vec_push_back(&mut sequence, HOLD_ALL);
        proof {
            lemma_u32_items_push(before, sequence, HOLD_ALL);
        }
        proof {
            lemma_hold_all_keeps_dice_after_deal(seed);
            assert(u32_items(sequence) =~= seq![HOLD_ALL]);
            lemma_replay_outcome(seed, u32_items(sequence));
        }
        return (dice, sequence);
    }
    let mut roll_index: u32 = 0;
    let mut won = false;
    while roll_index < max_rolls && !won
        invariant
            roll_index <= max_rolls,
            u32_items(sequence).len() == roll_index,
            u32_items(dice) == dice_after(seed, u32_items(sequence), roll_index as nat),
            holds_only_u32s(dice),
            forall|k: int|
                0 <= k < u32_items(sequence).len() ==> #[trigger] u32_items(sequence)[k]
                    < HOLD_MASK_LIMIT,
            forall|n: int|
                1 <= n < roll_index ==> !all_equal_spec(
                    #[trigger] dice_after(seed, u32_items(sequence), n as nat),
                ),
            won == all_equal_spec(u32_items(dice)),
            !all_equal_spec(initial_dice(seed)),
            forall|k: int, i: int|
                0 <= k < u32_items(sequence).len() && 0 <= i < DICE_PER_ROLL ==> (is_held(
                    #[trigger] u32_items(sequence)[k],
                    i,
                ) <==> #[trigger] dice_after(seed, u32_items(sequence), k as nat)[i] == greedy_face(
                    dice_after(seed, u32_items(sequence), k as nat),
                )),
        decreases max_rolls - roll_index,
    {
        let ghost seq0 = u32_items(sequence);
        proof {
            lemma_dice_after_in_range(seed, seq0, roll_index as nat);
        }
        let ghost dealt = u32_items(dice);
        let face = most_common_face(&dice);
        let mask = hold_mask_for_face(&dice, face);
        roll_index = roll_index + 1;
        dice = reroll_unheld_deterministic(env, &dice, mask, seed, roll_index);
        let ghost before = sequence;
        u32_vec_push_back(&mut sequence, mask);
        proof {
            lemma_u32_items_push(before, sequence, mask);
        }
        proof {
            let seq1 = u32_items(sequence);
            assert(seq1 == seq0.push(mask));
            lemma_dice_after_push(seed, seq0, mask);
            assert forall|n: int| 1 <= n < roll_index implies !all_equal_spec(
                #[trigger] dice_after(seed, seq1, n as nat),
            ) by {
                lemma_dice_after_prefix(seed, seq0, mask, n as nat);
            }
            assert forall|k: int| 0 <= k < seq1.len() implies #[trigger] seq1[k]
                < HOLD_MASK_LIMIT by {
                if k < seq0.len() {
                    assert(seq1[k] == seq0[k]);
                }
            }
            assert forall|k: int, i: int|
                0 <= k < seq1.len() && 0 <= i < DICE_PER_ROLL implies (is_held(
                #[trigger] seq1[k],
                i,
            ) <==> #[trigger] dice_after(seed, seq1, k as nat)[i] == greedy_face(
                dice_after(seed, seq1, k as nat),
            )) by {
                lemma_dice_after_prefix(seed, seq0, mask, k as nat);
                if k < seq0.len() {
                    assert(seq1[k] == seq0[k]);
                    assert(is_held(seq0[k], i) <==> dice_after(seed, seq0, k as nat)[i] == greedy_face(
                        dice_after(seed, seq0, k as nat),
                    ));
                } else {
                    assert(seq1[k] == mask);
                    assert(dice_after(seed, seq1, k as nat) == dealt);
                }
            }
        }
        won = all_equal(&dice);
    }
    proof {
        lemma_replay_outcome(seed, u32_items(sequence));
    }
    (dice, sequence)
}

} // verus!
