use coin_flip::engine::CoinFlip;
use coin_flip::errors::Error;
use coin_flip::wager::{
    AccountId, GameResult, Transfer, WagerStatus, MAX_FLIPS, MULTIPLIER_UNIT,
};

#[test]
fn bet_then_get_wager_is_pending_with_exact_fields() {
    let mut e = CoinFlip::new(MULTIPLIER_UNIT, 0);
    let owner = AccountId(7);
    let id = e.bet(owner, 1000, 4, vec![9, 8, 7]).unwrap();
    assert_eq!(id, 0);
    let w = e.get_wager(id).unwrap();
    assert_eq!(w.id, id);
    assert_eq!(w.owner, owner);
    assert_eq!(w.stake, 1000);
    assert_eq!(w.flip_count, 4);
    assert_eq!(w.game_data, vec![9, 8, 7]);
    assert!(matches!(w.status, WagerStatus::Pending));
    assert_eq!(e.get_total_wagered(), 1000);
    assert_eq!(e.get_custody(), 1000);
}

#[test]
fn settle_pays_half_share_per_even_byte() {
    let mut e = CoinFlip::new(MULTIPLIER_UNIT, 0);
    let owner = AccountId(1);
    let id = e.bet(owner, 1000, 4, vec![]).unwrap();
    let s = e.settle(id, &vec![0, 1, 0, 1]).unwrap();
    match s.result {
        GameResult::Win { payout, flips } => {
            assert_eq!(payout, 500);
            assert_eq!(flips, vec![true, false, true, false]);
        }
        GameResult::Lose => panic!("expected a win"),
    }
    assert_eq!(s.transfer, Some(Transfer { to: owner, amount: 500 }));
    let w = e.get_wager(id).unwrap();
    assert!(matches!(w.status, WagerStatus::Settled(_)));
    assert_eq!(e.get_custody(), 500);
    assert_eq!(e.get_total_wagered(), 1000);
}

#[test]
fn settle_twice_succeeds_once_and_pays_once() {
    let mut e = CoinFlip::new(MULTIPLIER_UNIT, 0);
    let owner = AccountId(2);
    let id = e.bet(owner, 1000, 4, vec![]).unwrap();
    let first = e.settle(id, &vec![0, 1, 0, 1]).unwrap();
    assert_eq!(first.transfer, Some(Transfer { to: owner, amount: 500 }));
    let custody_after_first = e.get_custody();
    let second = e.settle(id, &vec![0, 1, 0, 1]);
    assert_eq!(second, Err(Error::AlreadySettledOrRefunded));
    assert_eq!(e.get_custody(), custody_after_first);
}

#[test]
fn refund_by_non_owner_is_rejected_and_wager_stays_pending() {
    let mut e = CoinFlip::new(MULTIPLIER_UNIT, 0);
    let owner = AccountId(3);
    let stranger = AccountId(4);
    let id = e.bet(owner, 500, 2, vec![]).unwrap();
    assert_eq!(e.refund(id, stranger), Err(Error::NotOwner));
    let w = e.get_wager(id).unwrap();
    assert!(matches!(w.status, WagerStatus::Pending));
    assert_eq!(e.get_custody(), 500);
}

#[test]
fn bet_with_zero_stake_is_rejected_without_state_change() {
    let mut e = CoinFlip::new(MULTIPLIER_UNIT, 0);
    assert_eq!(e.bet(AccountId(5), 0, 1, vec![]), Err(Error::InvalidStake));
    assert_eq!(e.get_total_wagered(), 0);
    assert_eq!(e.get_custody(), 0);
    assert_eq!(e.get_wager(0), Err(Error::NotFound));
}

#[test]
fn bet_then_refund_by_owner_returns_stake_and_blocks_settlement() {
    let mut e = CoinFlip::new(MULTIPLIER_UNIT, 0);
    let owner = AccountId(6);
    let id = e.bet(owner, 1000, 4, vec![]).unwrap();
    assert_eq!(e.refund(id, owner), Ok(1000));
    let w = e.get_wager(id).unwrap();
    assert!(matches!(w.status, WagerStatus::Refunded));
    assert_eq!(e.get_custody(), 0);
    assert_eq!(e.settle(id, &vec![0, 1, 0, 1]), Err(Error::AlreadySettledOrRefunded));
}

#[test]
fn bet_with_zero_flips_is_rejected() {
    let mut e = CoinFlip::new(MULTIPLIER_UNIT, 0);
    assert_eq!(e.bet(AccountId(1), 100, 0, vec![]), Err(Error::InvalidFlipCount));
    assert_eq!(e.get_total_wagered(), 0);
}

#[test]
fn bet_with_too_many_flips_is_rejected() {
    let mut e = CoinFlip::new(MULTIPLIER_UNIT, 0);
    assert_eq!(
        e.bet(AccountId(1), 100, MAX_FLIPS + 1, vec![]),
        Err(Error::InvalidFlipCount)
    );
}

#[test]
fn bet_below_one_unit_per_flip_is_an_invalid_stake() {
    let mut e = CoinFlip::new(MULTIPLIER_UNIT, 0);
    assert_eq!(e.bet(AccountId(1), 3, 4, vec![]), Err(Error::InvalidStake));
}

#[test]
fn bet_with_maximum_flips_is_accepted() {
    let mut e = CoinFlip::new(MULTIPLIER_UNIT, 0);
    let owner = AccountId(9);
    let id = e.bet(owner, 10, MAX_FLIPS, vec![]).unwrap();
    let s = e.settle(id, &vec![1, 1, 1, 1, 1, 1, 1, 1, 1, 1]).unwrap();
    assert_eq!(s.result, GameResult::Lose);
    assert_eq!(s.transfer, None);
}

#[test]
fn truncated_shares_never_overpay() {
    let mut e = CoinFlip::new(MULTIPLIER_UNIT, 0);
    let owner = AccountId(8);
    let id = e.bet(owner, 10, 3, vec![]).unwrap();
    let s = e.settle(id, &vec![2, 4, 6]).unwrap();
    match s.result {
        GameResult::Win { payout, flips } => {
            assert_eq!(payout, 9);
            assert!(payout <= 10);
            assert_eq!(flips, vec![true, true, true]);
        }
        GameResult::Lose => panic!("expected a win"),
    }
    assert_eq!(e.get_custody(), 1);
}

#[test]
fn all_odd_bytes_lose_and_custody_keeps_the_stake() {
    let mut e = CoinFlip::new(MULTIPLIER_UNIT, 0);
    let owner = AccountId(8);
    let id = e.bet(owner, 100, 2, vec![]).unwrap();
    let s = e.settle(id, &vec![3, 5]).unwrap();
    assert_eq!(s.result, GameResult::Lose);
    assert_eq!(s.transfer, None);
    assert_eq!(e.get_custody(), 100);
    let w = e.get_wager(id).unwrap();
    match &w.status {
        WagerStatus::Settled(res) => assert_eq!(*res, GameResult::Lose),
        _ => panic!("expected a settled wager"),
    }
}

#[test]
fn settle_of_unknown_id_is_not_found() {
    let mut e = CoinFlip::new(MULTIPLIER_UNIT, 0);
    assert_eq!(e.settle(42, &vec![0; 10]), Err(Error::NotFound));
}

#[test]
fn refund_of_unknown_id_is_not_found() {
    let mut e = CoinFlip::new(MULTIPLIER_UNIT, 0);
    assert_eq!(e.refund(42, AccountId(1)), Err(Error::NotFound));
}

#[test]
fn get_results_tracks_the_lifecycle() {
    let mut e = CoinFlip::new(MULTIPLIER_UNIT, 0);
    let owner = AccountId(11);
    assert_eq!(e.get_results(0), Err(Error::NotFound));
    let id = e.bet(owner, 1000, 4, vec![]).unwrap();
    assert_eq!(e.get_results(id), Ok(None));
    let s = e.settle(id, &vec![0, 1, 0, 1]).unwrap();
    let stored = e.get_results(id).unwrap().expect("a settled wager has an outcome");
    assert_eq!(*stored, s.result);
    let other = e.bet(owner, 200, 1, vec![]).unwrap();
    assert_eq!(e.refund(other, owner), Ok(200));
    assert_eq!(e.get_results(other), Ok(None));
}

#[test]
fn engine_keeps_its_creation_parameters() {
    let e = CoinFlip::new(3 * MULTIPLIER_UNIT, 25);
    assert_eq!(e.get_win_multiplier(), 3 * MULTIPLIER_UNIT);
    assert_eq!(e.get_house_edge(), 25);
    assert_eq!(e.get_total_wagered(), 0);
    assert_eq!(e.get_custody(), 0);
}

#[test]
fn wagers_get_fresh_ids_and_are_independent() {
    let mut e = CoinFlip::new(MULTIPLIER_UNIT, 0);
    let a = AccountId(1);
    let b = AccountId(2);
    assert_eq!(e.next_request_id(), 0);
    let first = e.bet(a, 300, 3, vec![]).unwrap();
    let second = e.bet(b, 700, 7, vec![]).unwrap();
    assert_ne!(first, second);
    assert_eq!(e.next_request_id(), 2);
    assert_eq!(e.get_total_wagered(), 1000);
    assert_eq!(e.get_custody(), 1000);
    assert_eq!(e.refund(first, a), Ok(300));
    let w = e.get_wager(second).unwrap();
    assert!(matches!(w.status, WagerStatus::Pending));
    assert_eq!(w.stake, 700);
    assert_eq!(e.get_custody(), 700);
    assert_eq!(e.get_total_wagered(), 1000);
}
