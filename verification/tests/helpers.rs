use coin_flip::counter::Counter;
use coin_flip::number_helper::NumberHelper;
use coin_flip::wager::GameAction;

#[test]
fn mod_number_reduces_by_a_positive_modulus() {
    let h = NumberHelper;
    assert_eq!(h.modNumber(10, 3), 1);
    assert_eq!(h.modNumber(9, 3), 0);
    assert_eq!(h.modNumber(2, 5), 2);
}

#[test]
fn mod_number_with_zero_modulus_is_identity() {
    let h = NumberHelper;
    assert_eq!(h.modNumber(10, 0), 10);
    assert_eq!(h.modNumber(0, 0), 0);
}

#[test]
fn mod_numbers_maps_every_element_in_order() {
    let h = NumberHelper;
    let numbers = vec![1, 2, 3, 4, 5, 6, 7, 8, 9];
    assert_eq!(h.modNumbers(numbers, 3), vec![1, 2, 0, 1, 2, 0, 1, 2, 0]);
}

#[test]
fn mod_numbers_of_an_empty_vector_is_empty() {
    let h = NumberHelper::default();
    assert_eq!(h.modNumbers(vec![], 7), vec![]);
}

#[test]
fn counter_increments_and_decrements() {
    let mut c = Counter::new();
    assert_eq!(c.get(), 0);
    c.increment();
    c.increment();
    assert_eq!(c.get(), 2);
    c.decrement();
    assert_eq!(c.get(), 1);
}

#[test]
fn default_counter_starts_at_zero() {
    let c = Counter::default();
    assert_eq!(c.get(), 0);
}

#[test]
fn game_actions_are_distinct_requests() {
    let actions = [GameAction::Bet, GameAction::Refund];
    assert_ne!(actions[0], actions[1]);
    let described = match actions[0] {
        GameAction::Bet => "bet",
        GameAction::Refund => "refund",
    };
    assert_eq!(described, "bet");
}
