use vstd::prelude::*;

use crate::engine::{bet_ok, refund_err, settle_err, settle_ok, CoinFlip};
use crate::errors::Error;
use crate::wager::{AccountId, Settlement};

verus! {

/// A bet followed immediately by a lookup of the returned id finds a
/// pending record owned by the caller with exactly the requested stake and
/// flip count: together with the contract of `get_wager`, which returns
/// `wager_at(id)`, this is what a caller observes right after `bet`.
pub proof fn lemma_bet_then_get(
    pre: CoinFlip,
    post: CoinFlip,
    caller: AccountId,
    stake: u128,
    flip_count: u8,
    game_data: Vec<u8>,
    id: u64,
)
    requires
        bet_ok(pre, post, caller, stake, flip_count, game_data, id),
    ensures
        post.contains_wager(id),
        post.wager_at(id).status is Pending,
        post.wager_at(id).owner == caller,
        post.wager_at(id).stake == stake,
        post.wager_at(id).flip_count == flip_count,
{
}

/// Settlement succeeds at most once per id: after a successful settlement
/// the record is terminal, so by the contract of `settle` a second call on
/// the same id returns `AlreadySettledOrRefunded` and changes nothing — in
/// particular it emits no transfer, so the total payout across both calls
/// is the payout of the first call alone.
pub proof fn lemma_settle_once(pre: CoinFlip, post: CoinFlip, id: u64, seed: Seq<u8>, s: Settlement)
    requires
        settle_ok(pre, post, id, seed, s),
    ensures
        settle_err(post, id) == Some(Error::AlreadySettledOrRefunded),
{
}

/// A refund is owed only to the wager's owner: for a pending record, every
/// other caller is rejected with `NotOwner`, and by the contract of
/// `refund` a rejected call changes nothing — the wager stays pending.
pub proof fn lemma_refund_owner_only(state: CoinFlip, id: u64, caller: AccountId)
    requires
        state.contains_wager(id),
        state.wager_at(id).status is Pending,
        caller != state.wager_at(id).owner,
    ensures
        refund_err(state, id, caller) == Some(Error::NotOwner),
{
}

} // verus!
