use credit::{AgeAmount, AgeAmounts, Credit, CryptoHash, InitialState, Owner, StateError, DEFAULT_INITIAL_SUPPLY};

const LIFETIME: u64 = 1_000;
const SUPPLY: u128 = 1_000_000;

fn owner(n: u128) -> Owner {
    Owner { hash: CryptoHash { high: 0, low: n } }
}

fn ledger() -> Credit {
    Credit::new(InitialState { initial_supply: SUPPLY, amount_alive_ms: LIFETIME })
}

fn lot(amount: u128, expired: u64) -> AgeAmount {
    AgeAmount { amount, expired }
}

/// An account with a lot of 10 issued at time 100 and a lot of 5 at time 200.
fn ledger_ten_five() -> Credit {
    let mut c = ledger();
    c.reward(owner(1), 10, 100).unwrap();
    c.reward(owner(1), 5, 200).unwrap();
    c
}

fn total(c: &Credit, owners: &[Owner]) -> u128 {
    let mut t = c.balance(None);
    for o in owners {
        t += c.balance(Some(*o));
    }
    t
}

#[test]
fn new_ledger_has_whole_supply() {
    let c = ledger();
    assert_eq!(c.balance(None), SUPPLY);
    assert_eq!(c.initial_supply(), SUPPLY);
    assert_eq!(c.balance(Some(owner(1))), 0);
    assert!(c.lots(owner(1)).is_empty());
}

#[test]
fn zero_supply_stands_for_default() {
    let c = Credit::new(InitialState { initial_supply: 0, amount_alive_ms: 7 });
    assert_eq!(c.initial_supply(), DEFAULT_INITIAL_SUPPLY);
    assert_eq!(c.balance(None), 100_000_000u128 * 1_000_000_000_000_000_000u128);
    let s = c.initial_state();
    assert_eq!(s.initial_supply, DEFAULT_INITIAL_SUPPLY);
    assert_eq!(s.amount_alive_ms, 7);
}

#[test]
fn reward_appends_lot_and_debits_supply() {
    let mut c = ledger();
    assert_eq!(c.reward(owner(1), 10, 100), Ok(()));
    assert_eq!(c.lots(owner(1)), vec![lot(10, 1_100)]);
    assert_eq!(c.balance(Some(owner(1))), 10);
    assert_eq!(c.spendable(owner(1)), 10);
    assert_eq!(c.balance(None), SUPPLY - 10);
    c.reward(owner(1), 5, 200).unwrap();
    assert_eq!(c.lots(owner(1)), vec![lot(10, 1_100), lot(5, 1_200)]);
    assert_eq!(c.balance(Some(owner(1))), 15);
}

#[test]
fn reward_beyond_supply_clamps_supply_at_zero() {
    let mut c = ledger();
    assert_eq!(c.reward(owner(1), SUPPLY + 5, 0), Ok(()));
    assert_eq!(c.balance(None), 0);
    assert_eq!(c.balance(Some(owner(1))), SUPPLY + 5);
}

#[test]
fn reward_that_overflows_account_is_refused() {
    let mut c = ledger();
    c.reward(owner(1), u128::MAX, 0).unwrap();
    assert_eq!(c.reward(owner(1), 1, 0), Err(StateError::AmountOverflow));
    assert_eq!(c.lots(owner(1)), vec![lot(u128::MAX, LIFETIME)]);
    assert_eq!(c.balance(None), 0);
}

#[test]
fn expiry_saturates_at_largest_timestamp() {
    let mut c = ledger();
    c.reward(owner(1), 3, u64::MAX - 10).unwrap();
    assert_eq!(c.lots(owner(1)), vec![lot(3, u64::MAX)]);
}

#[test]
fn transfer_consumes_oldest_first_and_splits() {
    let mut c = ledger_ten_five();
    assert_eq!(c.transfer(owner(1), owner(2), 7, 500), Ok(()));
    assert_eq!(c.lots(owner(1)), vec![lot(5, 1_200), lot(3, 1_500)]);
    assert_eq!(c.balance(Some(owner(1))), 8);
    assert_eq!(c.spendable(owner(1)), 8);
    assert_eq!(c.lots(owner(2)), vec![lot(7, 1_500)]);
    assert_eq!(c.balance(Some(owner(2))), 7);
    assert_eq!(c.balance(None), SUPPLY - 15);
}

#[test]
fn transfer_exact_lot_leaves_no_remainder() {
    let mut c = ledger_ten_five();
    assert_eq!(c.transfer(owner(1), owner(2), 10, 500), Ok(()));
    assert_eq!(c.lots(owner(1)), vec![lot(5, 1_200)]);
    assert_eq!(c.balance(Some(owner(1))), 5);
    assert_eq!(c.lots(owner(2)), vec![lot(10, 1_500)]);
}

#[test]
fn transfer_across_lots_splits_the_last_one() {
    let mut c = ledger_ten_five();
    c.reward(owner(1), 4, 300).unwrap();
    assert_eq!(c.transfer(owner(1), owner(2), 12, 500), Ok(()));
    assert_eq!(c.lots(owner(1)), vec![lot(4, 1_300), lot(3, 1_500)]);
    assert_eq!(c.balance(Some(owner(1))), 7);
}

#[test]
fn transfer_of_everything_empties_the_account() {
    let mut c = ledger_ten_five();
    assert_eq!(c.transfer(owner(1), owner(2), 15, 500), Ok(()));
    assert!(c.lots(owner(1)).is_empty());
    assert_eq!(c.balance(Some(owner(1))), 0);
    assert_eq!(c.balance(Some(owner(2))), 15);
}

#[test]
fn transfer_beyond_balance_is_refused() {
    let mut c = ledger_ten_five();
    assert_eq!(c.transfer(owner(1), owner(2), 16, 500), Err(StateError::InsufficientAccountBalance));
    assert_eq!(c.lots(owner(1)), vec![lot(10, 1_100), lot(5, 1_200)]);
    assert_eq!(c.balance(Some(owner(1))), 15);
    assert!(c.lots(owner(2)).is_empty());
}

#[test]
fn transfer_from_unknown_account_is_refused() {
    let mut c = ledger();
    assert_eq!(c.transfer(owner(9), owner(2), 1, 0), Err(StateError::InsufficientAccountBalance));
    assert!(c.lots(owner(2)).is_empty());
}

#[test]
fn transfer_of_zero_from_unknown_account_gives_empty_lot() {
    let mut c = ledger();
    assert_eq!(c.transfer(owner(9), owner(2), 0, 0), Ok(()));
    assert_eq!(c.lots(owner(2)), vec![lot(0, LIFETIME)]);
    assert!(c.lots(owner(9)).is_empty());
}

#[test]
fn transfer_to_self_resets_ages() {
    let mut c = ledger_ten_five();
    assert_eq!(c.transfer(owner(1), owner(1), 7, 500), Ok(()));
    assert_eq!(c.lots(owner(1)), vec![lot(5, 1_200), lot(3, 1_500), lot(7, 1_500)]);
    assert_eq!(c.balance(Some(owner(1))), 15);
}

#[test]
fn transfer_that_overflows_payee_is_refused() {
    let mut c = ledger();
    c.reward(owner(1), 5, 0).unwrap();
    c.reward(owner(2), u128::MAX - 2, 0).unwrap();
    assert_eq!(c.transfer(owner(1), owner(2), 5, 0), Err(StateError::AmountOverflow));
    assert_eq!(c.lots(owner(1)), vec![lot(5, LIFETIME)]);
    assert_eq!(c.transfer(owner(1), owner(2), 2, 0), Ok(()));
    assert_eq!(c.balance(Some(owner(2))), u128::MAX);
}

#[test]
fn liquidate_reclaims_expired_lot_once() {
    let mut c = ledger();
    c.reward(owner(1), 10, 0).unwrap();
    assert_eq!(c.balance(None), SUPPLY - 10);
    c.liquidate(LIFETIME + 1);
    assert_eq!(c.spendable(owner(1)), 0);
    assert_eq!(c.balance(Some(owner(1))), 0);
    assert!(c.lots(owner(1)).is_empty());
    assert_eq!(c.balance(None), SUPPLY);
    c.liquidate(LIFETIME + 1);
    assert_eq!(c.spendable(owner(1)), 0);
    assert_eq!(c.balance(None), SUPPLY);
}

#[test]
fn liquidate_keeps_lot_at_its_expiry() {
    let mut c = ledger();
    c.reward(owner(1), 10, 0).unwrap();
    c.liquidate(LIFETIME);
    assert_eq!(c.lots(owner(1)), vec![lot(10, LIFETIME)]);
    assert_eq!(c.balance(None), SUPPLY - 10);
}

#[test]
fn liquidate_keeps_live_lots_in_order() {
    let mut c = ledger();
    c.reward(owner(1), 1, 0).unwrap();
    c.reward(owner(1), 2, 500).unwrap();
    c.reward(owner(1), 3, 100).unwrap();
    c.reward(owner(2), 4, 0).unwrap();
    c.liquidate(1_050);
    assert_eq!(c.lots(owner(1)), vec![lot(2, 1_500), lot(3, 1_100)]);
    assert_eq!(c.spendable(owner(1)), 5);
    assert!(c.lots(owner(2)).is_empty());
    assert_eq!(c.balance(None), SUPPLY - 5);
}

#[test]
fn supply_plus_lots_is_conserved() {
    let mut c = ledger();
    let owners = [owner(1), owner(2), owner(3)];
    assert_eq!(total(&c, &owners), SUPPLY);
    c.reward(owner(1), 100, 0).unwrap();
    c.reward(owner(2), 50, 400).unwrap();
    assert_eq!(total(&c, &owners), SUPPLY);
    c.transfer(owner(1), owner(3), 70, 500).unwrap();
    assert_eq!(total(&c, &owners), SUPPLY);
    assert!(c.transfer(owner(3), owner(2), 71, 600).is_err());
    assert_eq!(total(&c, &owners), SUPPLY);
    c.liquidate(1_200);
    assert_eq!(total(&c, &owners), SUPPLY);
    assert_eq!(c.balance(Some(owner(1))), 30);
    c.liquidate(2_000);
    assert_eq!(total(&c, &owners), SUPPLY);
    assert_eq!(c.balance(None), SUPPLY);
}

#[test]
fn balance_is_sum_of_lots() {
    let mut c = ledger();
    c.reward(owner(1), 4, 0).unwrap();
    c.reward(owner(1), 6, 10).unwrap();
    c.transfer(owner(1), owner(2), 5, 20).unwrap();
    for o in [owner(1), owner(2)] {
        let sum: u128 = c.lots(o).iter().map(|l| l.amount).sum();
        assert_eq!(c.balance(Some(o)), sum);
    }
    assert_eq!(c.balance(Some(owner(1))), 5);
}

#[test]
fn age_amounts_sum() {
    let a = AgeAmounts { amounts: vec![lot(1, 0), lot(20, 5), lot(300, 9)] };
    assert_eq!(a.sum(), 321);
    assert_eq!(AgeAmounts { amounts: vec![] }.sum(), 0);
}

#[test]
fn age_amounts_pay_and_retain_live() {
    let mut a = AgeAmounts { amounts: vec![lot(10, 1), lot(5, 2)] };
    a.pay(7, 99);
    assert_eq!(a.amounts, vec![lot(5, 2), lot(3, 99)]);
    let mut b = AgeAmounts { amounts: vec![lot(10, 1), lot(5, 3), lot(2, 2)] };
    assert_eq!(b.retain_live(2), 10);
    assert_eq!(b.amounts, vec![lot(5, 3), lot(2, 2)]);
}
