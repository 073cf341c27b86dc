use vstd::prelude::*;

use crate::wager::GameResult;

verus! {

/// How many of the first `n` draws come up winning: byte `i` of the seed
/// decides flip `i`, and an even byte is the winning side.
pub open spec fn win_count(seed: Seq<u8>, n: int) -> int
    decreases n,
{
    if n <= 0 {
        0
    } else {
        win_count(seed, n - 1) + if seed[n - 1] % 2 == 0 {
            1int
        } else {
            0int
        }
    }
}

/// The per-flip results of the first `n` draws, in draw order; `true` is
/// the winning side.
pub open spec fn flip_results(seed: Seq<u8>, n: int) -> Seq<bool> {
    Seq::new(n as nat, |i: int| seed[i] % 2 == 0)
}

/// The share one winning flip pays: the stake divided by the number of
/// flips, rounding down.  The remainder of the division is never paid out.
pub open spec fn share_per_flip(stake: u128, flip_count: u8) -> int {
    stake as int / flip_count as int
}

/// The total payout of a settlement: one share per winning flip.
pub open spec fn payout_of(stake: u128, flip_count: u8, seed: Seq<u8>) -> int {
    win_count(seed, flip_count as int) * share_per_flip(stake, flip_count)
}

/// What a settlement outcome must hold: the loss marker exactly when no
/// flip came up winning, and otherwise the per-flip results and the total
/// payout of the truncating share rule.
pub open spec fn result_matches(r: GameResult, stake: u128, flip_count: u8, seed: Seq<u8>) -> bool {
    match r {
        GameResult::Lose => win_count(seed, flip_count as int) == 0,
        GameResult::Win { payout, flips } => {
            &&& win_count(seed, flip_count as int) > 0
            &&& payout as int == payout_of(stake, flip_count, seed)
            &&& flips@ == flip_results(seed, flip_count as int)
        },
    }
}

/// At most every flip wins, and never a negative number of them.
pub proof fn lemma_win_count_bounds(seed: Seq<u8>, n: int)
    requires
        n >= 0,
    ensures
        0 <= win_count(seed, n) <= n,
    decreases n,
{
    if n > 0 {
        lemma_win_count_bounds(seed, n - 1);
    }
}

/// Truncating division never overpays: for every stake, flip count and
/// seed, the total payout lies between zero and the stake.
pub proof fn lemma_payout_bounds(stake: u128, flip_count: u8, seed: Seq<u8>)
    requires
        flip_count >= 1,
    ensures
        0 <= payout_of(stake, flip_count, seed) <= stake,
{
    let n = flip_count as int;
    let s = stake as int;
    let share = share_per_flip(stake, flip_count);
    let wc = win_count(seed, n);
    lemma_win_count_bounds(seed, n);
    vstd::arithmetic::div_mod::lemma_div_pos_is_pos(s, n);
    vstd::arithmetic::div_mod::lemma_fundamental_div_mod(s, n);
    vstd::arithmetic::div_mod::lemma_mod_bound(s, n);
    assert(n * share <= s);
    vstd::arithmetic::mul::lemma_mul_inequality(wc, n, share);
    vstd::arithmetic::mul::lemma_mul_inequality(0, wc, share);
}

} // verus!
