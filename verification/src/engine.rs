use vstd::prelude::*;

use crate::errors::Error;
use crate::outcome::{
    flip_results, lemma_payout_bounds, lemma_win_count_bounds, payout_of, result_matches,
    share_per_flip, win_count,
};
use crate::store::WagerStore;
use crate::wager::{
    clone_game_result, game_results_agree, valid_wager_params, with_status, AccountId, GameResult,
    Settlement, Transfer, Wager, WagerStatus, MAX_FLIPS, MULTIPLIER_UNIT,
};

verus! {

/// The escrow engine: validates bet requests, opens wager records, derives
/// outcomes from a randomness seed, and drives settlement.
///
/// The engine is an explicit state object: every operation runs to
/// completion on `&mut self`, validates fully before mutating, and emits at
/// most one transfer instruction for the host ledger as its last effect.
/// It holds no ambient state and performs no calls of its own.  The host
/// must execute a returned instruction within the same invocation, so that
/// its transaction rollback discards the state change whenever the
/// transfer fails; the engine never marks a record terminal on one path
/// and pays on another.
///
/// Accounting convention: a deposit enters custody with the bet; a
/// settlement releases only the payout, so the truncation remainder and
/// the stakes of losing flips stay in custody as the house's accrual; a
/// refund releases the full stake.
pub struct CoinFlip {
    store: WagerStore,
    win_multiplier: u128,
    house_edge: u64,
    custody: u128,
    total_wagered: u128,
    next_id: u64,
}

impl CoinFlip {
    /// Whether a wager record exists under the request id.
    pub closed spec fn contains_wager(&self, id: u64) -> bool {
        self.store.contains_id(id)
    }

    /// The wager record under the request id (meaningful only under
    /// `contains_wager`).
    pub closed spec fn wager_at(&self, id: u64) -> Wager {
        self.store.record_at(id)
    }

    /// Cumulative stake ever accepted; never decreases.
    pub closed spec fn spec_total_wagered(&self) -> u128 {
        self.total_wagered
    }

    /// The engine's record of the funds it holds in custody.
    pub closed spec fn spec_custody(&self) -> u128 {
        self.custody
    }

    /// The id the next accepted bet will receive.
    pub closed spec fn spec_next_id(&self) -> u64 {
        self.next_id
    }

    pub closed spec fn spec_win_multiplier(&self) -> u128 {
        self.win_multiplier
    }

    pub closed spec fn spec_house_edge(&self) -> u64 {
        self.house_edge
    }

    /// The stake the engine still owes across all pending wagers.
    pub closed spec fn obligations(&self) -> int {
        self.store.pending_total()
    }

    /// Well-formedness, established by `new` and preserved by every
    /// operation: ids are unique and below the allocation counter, every
    /// record passed bet validation, the committed payout obligation never
    /// exceeds the funds in custody, and custody never exceeds the
    /// cumulative total wagered.
    pub closed spec fn wf(&self) -> bool {
        &&& self.store.wf()
        &&& self.store.pending_total() <= self.custody as int
        &&& self.custody <= self.total_wagered
        &&& forall|id: u64| #[trigger]
            self.store.contains_id(id) ==> {
                &&& self.store.record_at(id).id == id
                &&& id < self.next_id
                &&& valid_wager_params(
                    self.store.record_at(id).stake,
                    self.store.record_at(id).flip_count,
                )
            }
    }
}

/// Why a bet request is rejected, if it is: a zero or below-one-unit-per-
/// flip stake is an invalid stake, a flip count of zero or above
/// `MAX_FLIPS` is an invalid flip count.
pub open spec fn bet_err(stake: u128, flip_count: u8) -> Option<Error> {
    if stake == 0 {
        Some(Error::InvalidStake)
    } else if flip_count == 0 || flip_count > MAX_FLIPS {
        Some(Error::InvalidFlipCount)
    } else if stake < flip_count as u128 {
        Some(Error::InvalidStake)
    } else {
        None
    }
}

/// The full effect of an accepted bet: a fresh id, one new pending record
/// owned by the caller with exactly the requested stake, flip count and
/// payload, every other record untouched, and the deposit added to both
/// custody and the cumulative total.
pub open spec fn bet_ok(
    pre: CoinFlip,
    post: CoinFlip,
    caller: AccountId,
    stake: u128,
    flip_count: u8,
    game_data: Vec<u8>,
    id: u64,
) -> bool {
    &&& bet_err(stake, flip_count) is None
    &&& id == pre.spec_next_id()
    &&& !pre.contains_wager(id)
    &&& post.contains_wager(id)
    &&& post.wager_at(id) == (Wager {
        id,
        owner: caller,
        stake,
        flip_count,
        game_data,
        status: WagerStatus::Pending,
    })
    &&& forall|j: u64| j != id ==> post.contains_wager(j) == pre.contains_wager(j)
    &&& forall|j: u64| j != id && pre.contains_wager(j) ==> post.wager_at(j) == pre.wager_at(j)
    &&& post.spec_total_wagered() == pre.spec_total_wagered() + stake
    &&& post.spec_custody() == pre.spec_custody() + stake
    &&& post.obligations() == pre.obligations() + stake
    &&& post.spec_next_id() == pre.spec_next_id() + 1
    &&& post.spec_win_multiplier() == pre.spec_win_multiplier()
    &&& post.spec_house_edge() == pre.spec_house_edge()
}

/// Why a settlement is rejected, if it is: no record under the id, or a
/// record already in a terminal state — outcomes are never recomputed.
pub open spec fn settle_err(state: CoinFlip, id: u64) -> Option<Error> {
    if !state.contains_wager(id) {
        Some(Error::NotFound)
    } else if !(state.wager_at(id).status is Pending) {
        Some(Error::AlreadySettledOrRefunded)
    } else {
        None
    }
}

/// The full effect of a successful settlement: the pending record moves to
/// `Settled` with the outcome the seed determines, the returned settlement
/// carries an agreeing outcome and a transfer of the payout to the owner
/// exactly when the payout is positive, the payout leaves custody, and
/// nothing else changes.
pub open spec fn settle_ok(
    pre: CoinFlip,
    post: CoinFlip,
    id: u64,
    seed: Seq<u8>,
    s: Settlement,
) -> bool {
    let w = pre.wager_at(id);
    let pay = payout_of(w.stake, w.flip_count, seed);
    &&& settle_err(pre, id) is None
    &&& result_matches(s.result, w.stake, w.flip_count, seed)
    &&& s.transfer == (if pay > 0 {
        Some(Transfer { to: w.owner, amount: pay as u128 })
    } else {
        None::<Transfer>
    })
    &&& post.contains_wager(id)
    &&& (match post.wager_at(id).status {
        WagerStatus::Settled(res) => game_results_agree(res, s.result),
        _ => false,
    })
    &&& post.wager_at(id).id == w.id
    &&& post.wager_at(id).owner == w.owner
    &&& post.wager_at(id).stake == w.stake
    &&& post.wager_at(id).flip_count == w.flip_count
    &&& post.wager_at(id).game_data == w.game_data
    &&& forall|j: u64| j != id ==> post.contains_wager(j) == pre.contains_wager(j)
    &&& forall|j: u64| j != id && pre.contains_wager(j) ==> post.wager_at(j) == pre.wager_at(j)
    &&& post.spec_custody() as int == pre.spec_custody() as int - pay
    &&& post.obligations() == pre.obligations() - w.stake
    &&& post.spec_total_wagered() == pre.spec_total_wagered()
    &&& post.spec_next_id() == pre.spec_next_id()
    &&& post.spec_win_multiplier() == pre.spec_win_multiplier()
    &&& post.spec_house_edge() == pre.spec_house_edge()
}

/// Why a refund is rejected, if it is: no record under the id, a record
/// already terminal, or a caller other than the owner.
pub open spec fn refund_err(state: CoinFlip, id: u64, caller: AccountId) -> Option<Error> {
    if !state.contains_wager(id) {
        Some(Error::NotFound)
    } else if !(state.wager_at(id).status is Pending) {
        Some(Error::AlreadySettledOrRefunded)
    } else if state.wager_at(id).owner != caller {
        Some(Error::NotOwner)
    } else {
        None
    }
}

/// The full effect of a successful refund: the pending record moves to
/// `Refunded`, the full stake is the refunded amount and leaves custody,
/// and nothing else changes.
pub open spec fn refund_ok(
    pre: CoinFlip,
    post: CoinFlip,
    id: u64,
    caller: AccountId,
    amount: u128,
) -> bool {
    let w = pre.wager_at(id);
    &&& refund_err(pre, id, caller) is None
    &&& amount == w.stake
    &&& post.contains_wager(id)
    &&& post.wager_at(id) == with_status(w, WagerStatus::Refunded)
    &&& forall|j: u64| j != id ==> post.contains_wager(j) == pre.contains_wager(j)
    &&& forall|j: u64| j != id && pre.contains_wager(j) ==> post.wager_at(j) == pre.wager_at(j)
    &&& post.spec_custody() as int == pre.spec_custody() as int - w.stake as int
    &&& post.obligations() == pre.obligations() - w.stake
    &&& post.spec_total_wagered() == pre.spec_total_wagered()
    &&& post.spec_next_id() == pre.spec_next_id()
    &&& post.spec_win_multiplier() == pre.spec_win_multiplier()
    &&& post.spec_house_edge() == pre.spec_house_edge()
}

impl CoinFlip {
    /// A fresh engine with an empty store, nothing in custody and nothing
    /// wagered.  The win multiplier must be at least one in fixed-point.
    pub fn new(win_multiplier: u128, house_edge: u64) -> (r: CoinFlip)
        requires
            win_multiplier >= MULTIPLIER_UNIT,
        ensures
            r.wf(),
            r.spec_win_multiplier() == win_multiplier,
            r.spec_house_edge() == house_edge,
            r.spec_total_wagered() == 0,
            r.spec_custody() == 0,
            r.obligations() == 0,
            r.spec_next_id() == 0,
            forall|id: u64| !r.contains_wager(id),
    {
        CoinFlip {
            store: WagerStore::new(),
            win_multiplier,
            house_edge,
            custody: 0,
            total_wagered: 0,
            next_id: 0,
        }
    }

    /// Open a bet: the caller deposits `stake` and asks for `flip_count`
    /// independent draws.  On success the deposit enters custody, a fresh
    /// id is returned and a pending record is stored; on rejection nothing
    /// changes.  No funds move at this step.
    pub fn bet(
        &mut self,
        caller: AccountId,
        stake: u128,
        flip_count: u8,
        game_data: Vec<u8>,
    ) -> (r: Result<u64, Error>)
        requires
            old(self).wf(),
            old(self).spec_total_wagered() + stake <= u128::MAX,
            old(self).spec_next_id() < u64::MAX,
        ensures
            final(self).wf(),
            match r {
                Ok(id) => bet_ok(*old(self), *final(self), caller, stake, flip_count, game_data, id),
                Err(e) => Some(e) == bet_err(stake, flip_count) && *final(self) == *old(self),
            },
    {
        if stake == 0 {
            return Err(Error::InvalidStake);
        }
        if flip_count == 0 || flip_count > MAX_FLIPS {
            return Err(Error::InvalidFlipCount);
        }
        if stake < flip_count as u128 {
            return Err(Error::InvalidStake);
        }
        let id = self.next_id;
        proof {
            assert(!self.store.contains_id(id));
        }
        let w = Wager {
            id,
            owner: caller,
            stake,
            flip_count,
            game_data,
            status: WagerStatus::Pending,
        };
        match self.store.insert(w) {
            Err(_) => Err(Error::DuplicateId),
            Ok(()) => {
                self.custody = self.custody + stake;
                self.total_wagered = self.total_wagered + stake;
                self.next_id = self.next_id + 1;
                proof {
                    assert forall|j: u64| #[trigger] self.store.contains_id(j) implies {
                        &&& self.store.record_at(j).id == j
                        &&& j < self.next_id
                        &&& valid_wager_params(
                            self.store.record_at(j).stake,
                            self.store.record_at(j).flip_count,
                        )
                    } by {
                        if j != id {
                            assert(old(self).store.contains_id(j));
                        }
                    }
                }
                Ok(id)
            },
        }
    }

    /// Settle the wager under `id`, deriving one outcome per flip from the
    /// seed: byte `i` decides flip `i`, an even byte wins one share of
    /// `stake / flip_count` (rounding down; the remainder is never paid).
    /// On success the record becomes `Settled`, and the payout — to be
    /// carried out by the host ledger — leaves custody; a record that is
    /// absent or already terminal is rejected and nothing changes.
    pub fn settle(&mut self, id: u64, seed: &Vec<u8>) -> (r: Result<Settlement, Error>)
        requires
            old(self).wf(),
            settle_err(*old(self), id) is None ==> seed@.len()
                >= old(self).wager_at(id).flip_count as int,
        ensures
            final(self).wf(),
            match r {
                Ok(s) => settle_ok(*old(self), *final(self), id, seed@, s),
                Err(e) => Some(e) == settle_err(*old(self), id) && *final(self) == *old(self),
            },
    {
        let (stake, flip_count, owner) = match self.store.get(id) {
            Err(_) => {
                return Err(Error::NotFound);
            },
            Ok(w) => {
                match &w.status {
                    WagerStatus::Pending => {},
                    _ => {
                        return Err(Error::AlreadySettledOrRefunded);
                    },
                }
                (w.stake, w.flip_count, w.owner)
            },
        };
        proof {
            assert(self.store.contains_id(id));
            lemma_payout_bounds(stake, flip_count, seed@);
            self.store.lemma_pending_stake_bounded(id);
        }
        let share: u128 = stake / (flip_count as u128);
        let mut wins: u8 = 0;
        let mut flips: Vec<bool> = Vec::new();
        let mut i: usize = 0;
        while i < flip_count as usize
            invariant
                i <= flip_count as usize,
                seed@.len() >= flip_count as int,
                wins as int == win_count(seed@, i as int),
                wins <= i,
                flips@.len() == i,
                forall|k: int| 0 <= k < i ==> flips@[k] == (seed@[k] % 2 == 0),
            decreases flip_count as int - i,
        {
            let b = seed[i];
            if b % 2 == 0 {
                wins = wins + 1;
                flips.push(true);
            } else {
                flips.push(false);
            }
            i = i + 1;
        }
        proof {
            assert(flips@ =~= flip_results(seed@, flip_count as int));
            lemma_win_count_bounds(seed@, flip_count as int);
            vstd::arithmetic::mul::lemma_mul_inequality(
                win_count(seed@, flip_count as int),
                flip_count as int,
                share_per_flip(stake, flip_count),
            );
        }
        let payout: u128 = (wins as u128) * share;
        if payout > self.custody {
            return Err(Error::InsufficientCustody);
        }
        let result = if wins == 0 {
            GameResult::Lose
        } else {
            GameResult::Win { payout, flips }
        };
        let stored = clone_game_result(&result);
        match self.store.set_status(id, WagerStatus::Settled(stored)) {
            Err(_) => Err(Error::NotFound),
            Ok(()) => {
                self.custody = self.custody - payout;
                let transfer = if payout > 0 {
                    Some(Transfer { to: owner, amount: payout })
                } else {
                    None
                };
                proof {
                    assert forall|j: u64| #[trigger] self.store.contains_id(j) implies {
                        &&& self.store.record_at(j).id == j
                        &&& j < self.next_id
                        &&& valid_wager_params(
                            self.store.record_at(j).stake,
                            self.store.record_at(j).flip_count,
                        )
                    } by {
                        assert(old(self).store.contains_id(j));
                    }
                }
                Ok(Settlement { result, transfer })
            },
        }
    }

    /// Refund the pending wager under `id` to its owner: the record becomes
    /// `Refunded` and the full stake — to be returned by the host ledger —
    /// leaves custody.  A record that is absent or already terminal, or a
    /// caller other than the owner, is rejected and nothing changes.
    pub fn refund(&mut self, id: u64, caller: AccountId) -> (r: Result<u128, Error>)
        requires
            old(self).wf(),
        ensures
            final(self).wf(),
            match r {
                Ok(amount) => refund_ok(*old(self), *final(self), id, caller, amount),
                Err(e) => Some(e) == refund_err(*old(self), id, caller) && *final(self) == *old(
                    self,
                ),
            },
    {
        let (stake, owner) = match self.store.get(id) {
            Err(_) => {
                return Err(Error::NotFound);
            },
            Ok(w) => {
                match &w.status {
                    WagerStatus::Pending => {},
                    _ => {
                        return Err(Error::AlreadySettledOrRefunded);
                    },
                }
                (w.stake, w.owner)
            },
        };
        if owner != caller {
            return Err(Error::NotOwner);
        }
        proof {
            assert(self.store.contains_id(id));
            self.store.lemma_pending_stake_bounded(id);
        }
        if stake > self.custody {
            return Err(Error::InsufficientCustody);
        }
        match self.store.set_status(id, WagerStatus::Refunded) {
            Err(_) => Err(Error::NotFound),
            Ok(()) => {
                self.custody = self.custody - stake;
                proof {
                    assert forall|j: u64| #[trigger] self.store.contains_id(j) implies {
                        &&& self.store.record_at(j).id == j
                        &&& j < self.next_id
                        &&& valid_wager_params(
                            self.store.record_at(j).stake,
                            self.store.record_at(j).flip_count,
                        )
                    } by {
                        assert(old(self).store.contains_id(j));
                    }
                }
                Ok(stake)
            },
        }
    }

    /// Read the wager record under the id.  Fails with `NotFound` exactly
    /// when no record exists under it; never changes anything.
    pub fn get_wager(&self, id: u64) -> (r: Result<&Wager, Error>)
        requires
            self.wf(),
        ensures
            match r {
                Ok(w) => self.contains_wager(id) && *w == self.wager_at(id),
                Err(e) => e == Error::NotFound && !self.contains_wager(id),
            },
    {
        self.store.get(id)
    }

    /// Read the outcome of the wager under the id: the settled outcome if
    /// there is one, `None` while the record is pending or refunded.  Fails
    /// with `NotFound` exactly when no record exists under the id.
    pub fn get_results(&self, id: u64) -> (r: Result<Option<&GameResult>, Error>)
        requires
            self.wf(),
        ensures
            match r {
                Ok(opt) => self.contains_wager(id) && (match opt {
                    Some(res) => self.wager_at(id).status == WagerStatus::Settled(*res),
                    None => !(self.wager_at(id).status is Settled),
                }),
                Err(e) => e == Error::NotFound && !self.contains_wager(id),
            },
    {
        match self.store.get(id) {
            Err(e) => Err(e),
            Ok(w) => match &w.status {
                WagerStatus::Settled(res) => Ok(Some(res)),
                _ => Ok(None),
            },
        }
    }

    /// Cumulative stake ever accepted by `bet`.
    pub fn get_total_wagered(&self) -> (r: u128)
        ensures
            r == self.spec_total_wagered(),
    {
        self.total_wagered
    }

    /// The engine's record of the funds it currently holds in custody.
    pub fn get_custody(&self) -> (r: u128)
        ensures
            r == self.spec_custody(),
    {
        self.custody
    }

    /// The id the next accepted bet will receive.
    pub fn next_request_id(&self) -> (r: u64)
        ensures
            r == self.spec_next_id(),
    {
        self.next_id
    }

    /// The engine never commits to more than it holds: in every
    /// well-formed state the payout obligation across all pending wagers
    /// is covered by the funds in custody, so no settlement or refund can
    /// overdraw.
    pub proof fn lemma_custody_covers_obligations(&self)
        requires
            self.wf(),
        ensures
            0 <= self.obligations() <= self.spec_custody() as int,
    {
        self.store.lemma_pending_total_nonneg();
    }

    /// The win multiplier the engine was created with, in fixed-point
    /// units of `MULTIPLIER_UNIT`.
    pub fn get_win_multiplier(&self) -> (r: u128)
        ensures
            r == self.spec_win_multiplier(),
    {
        self.win_multiplier
    }

    /// The house edge the engine was created with.
    pub fn get_house_edge(&self) -> (r: u64)
        ensures
            r == self.spec_house_edge(),
    {
        self.house_edge
    }
}

} // verus!
