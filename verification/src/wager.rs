use vstd::prelude::*;

verus! {

/// Greatest number of independent flips a single wager may request.
pub const MAX_FLIPS: u8 = 10;

/// Fixed-point unit of the win multiplier: a multiplier equal to this value
/// means a multiplier of one.  The engine refuses multipliers below one.
pub const MULTIPLIER_UNIT: u128 = 1_000_000_000_000_000_000;

/// Identity of an account as the host names it.  The engine never inspects
/// an identity beyond comparing it for equality.
#[derive(Clone, Copy, Debug, PartialEq, Eq, Structural)]
pub struct AccountId(pub u64);

/// The two caller-initiated requests against an open wager: placing a bet
/// and asking for a refund.  The boundary dispatches each to its own engine
/// operation with its own preconditions.
#[derive(Clone, Copy, Debug, PartialEq, Eq)]
pub enum GameAction {
    Bet,
    Refund,
}

/// Outcome of a settled wager: either a total payout together with the
/// per-flip results (`true` is the winning side), or a loss marker meaning
/// no flip came up winning.
#[derive(Clone, Debug, PartialEq, Eq)]
pub enum GameResult {
    Win { payout: u128, flips: Vec<bool> },
    Lose,
}

/// Lifecycle state of a wager.  The state is monotonic: a record leaves
/// `Pending` exactly once, for one of the two terminal states, and a
/// terminal record is never touched again.
#[derive(Clone, Debug, PartialEq, Eq)]
pub enum WagerStatus {
    Pending,
    Settled(GameResult),
    Refunded,
}

/// One bet's full record.  Everything but `status` is fixed at creation.
#[derive(Clone, Debug, PartialEq, Eq)]
pub struct Wager {
    /// Unique request identifier, assigned at creation.
    pub id: u64,
    /// The account that opened the bet; only it may refund.
    pub owner: AccountId,
    /// Deposited amount, positive and at least one unit per flip.
    pub stake: u128,
    /// Number of independent outcome draws, between 1 and `MAX_FLIPS`.
    pub flip_count: u8,
    /// Opaque auxiliary payload, passed through untouched.
    pub game_data: Vec<u8>,
    pub status: WagerStatus,
}

/// An instruction to the host ledger: move `amount` out of the engine's
/// custody to the account `to`.  The engine emits at most one per
/// operation and never moves value itself.
#[derive(Clone, Copy, Debug, PartialEq, Eq)]
pub struct Transfer {
    pub to: AccountId,
    pub amount: u128,
}

/// What a successful settlement hands back: the outcome, and the transfer
/// the host ledger must now execute (absent when the payout is zero).
#[derive(Clone, Debug, PartialEq, Eq)]
pub struct Settlement {
    pub result: GameResult,
    pub transfer: Option<Transfer>,
}

/// Two outcomes carry the same information: the same marker, and for wins
/// the same payout and the same per-flip results.
pub open spec fn game_results_agree(a: GameResult, b: GameResult) -> bool {
    match (a, b) {
        (GameResult::Lose, GameResult::Lose) => true,
        (GameResult::Win { payout: pa, flips: fa }, GameResult::Win { payout: pb, flips: fb }) => {
            pa == pb && fa@ == fb@
        },
        _ => false,
    }
}

fn clone_bools(v: &Vec<bool>) -> (r: Vec<bool>)
    ensures
        r@ == v@,
{
    let mut out: Vec<bool> = Vec::new();
    let mut i: usize = 0;
    while i < v.len()
        invariant
            i <= v@.len(),
            out@.len() == i,
            forall|k: int| 0 <= k < i ==> out@[k] == v@[k],
        decreases v@.len() - i,
    {
        out.push(v[i]);
        i = i + 1;
    }
    proof {
        assert(out@ =~= v@);
    }
    out
}

/// A copy of a settlement outcome carrying the same information.
pub fn clone_game_result(r: &GameResult) -> (c: GameResult)
    ensures
        game_results_agree(*r, c),
{
    match r {
        GameResult::Lose => GameResult::Lose,
        GameResult::Win { payout, flips } => GameResult::Win {
            payout: *payout,
            flips: clone_bools(flips),
        },
    }
}

/// A wager's stake counts toward the engine's escrow obligation only while
/// the wager is pending; terminal records oblige nothing.
pub open spec fn pending_contribution(w: Wager) -> int {
    if w.status is Pending {
        w.stake as int
    } else {
        0
    }
}

/// The record `w` with its status replaced and every other field kept.
pub open spec fn with_status(w: Wager, status: WagerStatus) -> Wager {
    Wager { status, ..w }
}

/// The stake and flip count a bet request must carry to be accepted:
/// a positive stake of at least one unit per flip, and a flip count
/// between 1 and `MAX_FLIPS`.
pub open spec fn valid_wager_params(stake: u128, flip_count: u8) -> bool {
    &&& stake > 0
    &&& 1 <= flip_count <= MAX_FLIPS
    &&& stake >= flip_count as u128
}

} // verus!
